use mageling::geometry::{Vec2, UNIT};
use mageling::input::{PlayerControls, CANCEL_SPELL, CAST_SPELL, DASH, SELECT_SPELL};
use mageling::level::sort_by_key;
use mageling::spell::SpellCastState;
use mageling::level::{new_actor, start_round, wall_tile};
use mageling::player::{MovementState, PlayerMovementStats, TeamId};
use mageling::session::FPS;
use mageling::spell::SpellAnimation;
use mageling::world::{SpawnPoint, World};

fn units(x: i64, y: i64) -> Vec2 {
    Vec2::new(x * UNIT, y * UNIT)
}

fn spawn(team: usize, x: i64, y: i64) -> SpawnPoint {
    SpawnPoint { team: TeamId { id: team }, position: units(x, y) }
}

fn two_player_world() -> World {
    let points = vec![spawn(1, 100, 0), spawn(0, -100, 0), spawn(0, -200, 50), spawn(1, 200, 50)];
    start_round(2, Vec::new(), points, FPS).unwrap()
}

fn idle() -> PlayerControls {
    PlayerControls::neutral()
}

fn moving(x: i64, y: i64) -> PlayerControls {
    let mut p = PlayerControls::neutral();
    p.move_direction = Vec2::new(x, y);
    p
}

#[test]
fn start_round_sorts_spawn_points_and_places_actors() {
    let w = two_player_world();
    assert_eq!(w.spawn_points[0], spawn(0, -200, 50));
    assert_eq!(w.spawn_points[1], spawn(0, -100, 0));
    assert_eq!(w.spawn_points[2], spawn(1, 100, 0));
    assert_eq!(w.spawn_points[3], spawn(1, 200, 50));
    assert_eq!(w.actors.len(), 2);
    assert_eq!(w.actors[0].transform, units(-200, 50));
    assert_eq!(w.actors[1].transform, units(-100, 0));
    assert_eq!(w.actors[0].team_id.id, 0);
    assert_eq!(w.actors[1].team_id.id, 1);
    assert!(w.is_valid());
}

#[test]
fn start_round_needs_a_spawn_point_per_player() {
    assert!(start_round(3, Vec::new(), vec![spawn(0, 0, 0), spawn(1, 10, 0)], FPS).is_err());
    assert!(start_round(2, Vec::new(), vec![spawn(0, 0, 0), spawn(1, 10, 0)], 0).is_err());
}

#[test]
fn dash_travels_seventy_two_units_then_idles() {
    let mut w = two_player_world();
    w.actors[0].stats = PlayerMovementStats { speed: 160, dash_power: 3, dash_duration: 9, dash_cooldown_length: 300 };
    let start = w.actors[0].transform;
    let mut first = moving(1, 0);
    first.action_vars = DASH;
    w.advance_frame(&vec![first, idle()]);
    assert!(matches!(w.actors[0].movement_state.movement_state, MovementState::Dashing { .. }));
    for _ in 1..9 {
        w.advance_frame(&vec![idle(), idle()]);
    }
    assert_eq!(w.actors[0].transform.x - start.x, 72 * UNIT);
    assert_eq!(w.actors[0].transform.y, start.y);
    assert_eq!(w.actors[0].movement_state.movement_state, MovementState::Idle);
    assert!(!w.actors[0].movement_state.can_dash);
}

#[test]
fn no_new_dash_until_cooldown_has_run() {
    let mut w = two_player_world();
    let mut dash = moving(1, 0);
    dash.action_vars = DASH;
    w.advance_frame(&vec![dash, idle()]);
    let after_first = w.actors[0].transform.x;
    for _ in 0..8 {
        w.advance_frame(&vec![dash, idle()]);
    }
    assert_eq!(w.actors[0].transform.x - after_first, 8 * 8 * UNIT);
    // the dash is over; requesting another before the cooldown only walks
    w.advance_frame(&vec![dash, idle()]);
    assert_eq!(w.actors[0].movement_state.movement_state, MovementState::Walking);
    for _ in 0..298 {
        w.advance_frame(&vec![idle(), idle()]);
    }
    assert!(!w.actors[0].movement_state.can_dash);
    w.advance_frame(&vec![idle(), idle()]);
    assert!(w.actors[0].movement_state.can_dash);
    w.advance_frame(&vec![dash, idle()]);
    assert!(matches!(w.actors[0].movement_state.movement_state, MovementState::Dashing { .. }));
}

#[test]
fn walking_moves_by_speed_over_tick_rate() {
    let mut w = two_player_world();
    let start = w.actors[1].transform;
    w.advance_frame(&vec![idle(), moving(0, 1)]);
    assert_eq!(w.actors[1].movement_state.movement_state, MovementState::Walking);
    // 160 units per second at 60 ticks per second, rounded toward zero
    assert_eq!(w.actors[1].transform.y - start.y, 2666);
    w.advance_frame(&vec![idle(), moving(-1, -1)]);
    assert_eq!(w.actors[1].movement.velocity, Vec2::new(-707, -707));
}

#[test]
fn cast_hit_respawns_victim_at_its_team_spawn() {
    let mut w = two_player_world();
    let victim = w.actors[1].transform;
    let caster = w.actors[0].transform;
    w.actors[0].spells.spells[0].spell_id.id = 7;
    let mut cast = idle();
    cast.action_vars = SELECT_SPELL | CAST_SPELL;
    cast.cast_spell_type = 7;
    cast.mouse_position = victim;
    w.advance_frame(&vec![cast, idle()]);
    assert_eq!(w.projectiles.len(), 1);
    assert_eq!(w.projectiles[0].caster.id.handle, 0);
    assert_eq!(w.projectiles[0].spell_id.id, 7);
    assert_eq!(w.projectiles[0].lifetime.phase, SpellAnimation::CastDelay);
    // the projectile does no harm while its delay runs
    for _ in 0..58 {
        w.advance_frame(&vec![idle(), idle()]);
    }
    assert_eq!(w.projectiles[0].lifetime.phase, SpellAnimation::CastDelay);
    assert_eq!(w.actors[1].transform, victim);
    w.advance_frame(&vec![idle(), idle()]);
    assert_eq!(w.projectiles[0].lifetime.phase, SpellAnimation::Cast);
    w.advance_frame(&vec![idle(), idle()]);
    // team 1's spawn point is the last of its team in the sorted list
    assert_eq!(w.actors[1].transform, units(200, 50));
    assert_eq!(w.actors[0].transform, caster);
}

#[test]
fn projectile_does_not_hit_its_caster() {
    let mut w = two_player_world();
    let caster = w.actors[0].transform;
    let mut cast = idle();
    cast.action_vars = SELECT_SPELL | CAST_SPELL;
    cast.mouse_position = caster;
    w.advance_frame(&vec![cast, idle()]);
    for _ in 0..61 {
        w.advance_frame(&vec![idle(), idle()]);
    }
    assert_eq!(w.actors[0].transform, caster);
}

#[test]
fn projectile_despawns_after_explosion_frames() {
    let mut w = two_player_world();
    let mut cast = idle();
    cast.action_vars = SELECT_SPELL | CAST_SPELL;
    cast.mouse_position = units(0, 500);
    w.advance_frame(&vec![cast, idle()]);
    for _ in 0..59 {
        w.advance_frame(&vec![idle(), idle()]);
    }
    assert_eq!(w.projectiles[0].lifetime.phase, SpellAnimation::Cast);
    assert_eq!(w.projectiles[0].lifetime.current_frame, 0);
    for k in 1..6 {
        w.advance_frame(&vec![idle(), idle()]);
        assert_eq!(w.projectiles.len(), 1);
        assert_eq!(w.projectiles[0].lifetime.current_frame, k);
    }
    w.advance_frame(&vec![idle(), idle()]);
    assert!(w.projectiles.is_empty());
}

#[test]
fn wall_pushes_actor_out_and_records_axis() {
    let points = vec![spawn(0, 0, 0), spawn(1, 500, 0)];
    // a wall tile whose left edge is 2 units right of the actor's right edge
    let walls = vec![wall_tile(units(7, 0))];
    let mut w = start_round(2, walls, points, FPS).unwrap();
    let mut frames = 0;
    while w.actors[0].correction_axes.is_empty() && frames < 10 {
        w.advance_frame(&vec![moving(1, 0), idle()]);
        frames += 1;
    }
    assert_eq!(w.actors[0].correction_axes, vec![Vec2::new(-UNIT, 0)]);
    assert_eq!(w.actors[0].transform.x + 5 * UNIT, 7 * UNIT);
    // standing still next to the wall, the axes are gone after the next frame
    w.advance_frame(&vec![idle(), idle()]);
    assert!(w.actors[0].correction_axes.is_empty());
}

#[test]
fn frames_without_wall_overlap_leave_no_axes() {
    let points = vec![spawn(0, 0, 0), spawn(1, 500, 0)];
    let mut w = start_round(2, vec![wall_tile(units(100, 100))], points, FPS).unwrap();
    for _ in 0..5 {
        w.advance_frame(&vec![moving(1, 0), moving(0, 1)]);
        assert!(w.actors[0].correction_axes.is_empty());
        assert!(w.actors[1].correction_axes.is_empty());
    }
}

#[test]
fn replay_from_same_state_is_identical() {
    let frames: Vec<Vec<PlayerControls>> = (0..40)
        .map(|k| {
            let mut a = moving((k % 3) as i64 - 1, 1);
            if k == 3 {
                a.action_vars = DASH | SELECT_SPELL | CAST_SPELL;
                a.mouse_position = units(-100, 0);
            }
            vec![a, moving(1, -(k % 2) as i64)]
        })
        .collect();
    let mut a = two_player_world();
    let mut b = two_player_world();
    a.run_frames(&frames);
    b.run_frames(&frames);
    for i in 0..2 {
        assert_eq!(a.actors[i].transform, b.actors[i].transform);
        assert_eq!(a.actors[i].movement_state, b.actors[i].movement_state);
        assert_eq!(a.actors[i].correction_axes, b.actors[i].correction_axes);
    }
    assert_eq!(a.projectiles, b.projectiles);
    assert_eq!(a.ids, b.ids);
}

#[test]
fn rollback_with_confirmed_input_recomputes_later_frames() {
    // frame F is first simulated with a predicted input, then the
    // confirmed one arrives and everything from F on is simulated again
    let snapshot_frames = vec![vec![moving(1, 0), idle()]; 3];
    let later: Vec<Vec<PlayerControls>> = vec![vec![moving(0, 1), idle()]; 4];
    let predicted = vec![moving(1, 0), idle()];
    let mut confirmed = moving(1, 0);
    confirmed.action_vars = DASH;

    let mut predicted_run = two_player_world();
    predicted_run.run_frames(&snapshot_frames);
    let saved_x = predicted_run.actors[0].transform;
    predicted_run.advance_frame(&predicted);
    let predicted_at_f = predicted_run.actors[0].transform;
    predicted_run.run_frames(&later);

    let mut resimulated = two_player_world();
    resimulated.run_frames(&snapshot_frames);
    assert_eq!(resimulated.actors[0].transform, saved_x);
    resimulated.advance_frame(&vec![confirmed, idle()]);
    let confirmed_at_f = resimulated.actors[0].transform;
    resimulated.run_frames(&later);

    assert_ne!(predicted_at_f, confirmed_at_f);
    assert_ne!(predicted_run.actors[0].transform, resimulated.actors[0].transform);

    // the corrected history gives the same result however it is replayed
    let mut whole: Vec<Vec<PlayerControls>> = snapshot_frames.clone();
    whole.push(vec![confirmed, idle()]);
    whole.extend(later.iter().cloned());
    let mut from_start = two_player_world();
    from_start.run_frames(&whole);
    assert_eq!(from_start.actors[0].transform, resimulated.actors[0].transform);
    assert_eq!(from_start.actors[0].movement_state, resimulated.actors[0].movement_state);
}

#[test]
fn new_actor_alternates_teams() {
    let a = new_actor(3, units(1, 2));
    assert_eq!(a.team_id.id, 1);
    assert_eq!(a.player_id.handle, 3);
    assert_eq!(a.health.current_health, 100);
    assert_eq!(a.shape.width, 5 * UNIT);
}

#[test]
fn cast_bit_without_selection_spawns_nothing() {
    let mut w = two_player_world();
    let mut cast = idle();
    cast.action_vars = CAST_SPELL;
    cast.mouse_position = w.actors[1].transform;
    w.advance_frame(&vec![cast, idle()]);
    assert!(w.projectiles.is_empty());
    assert_eq!(w.actors[0].combat_state.spell_cast_state, SpellCastState::Inactive);
}

#[test]
fn selection_travels_in_packets_then_casts_or_cancels() {
    let mut w = two_player_world();
    let mut select = idle();
    select.action_vars = SELECT_SPELL;
    select.cast_spell_type = 0;
    w.advance_frame(&vec![select, idle()]);
    assert!(matches!(w.actors[0].combat_state.spell_cast_state, SpellCastState::Precast { .. }));
    assert!(w.projectiles.is_empty());
    let mut cancel = idle();
    cancel.action_vars = CANCEL_SPELL;
    w.advance_frame(&vec![cancel, idle()]);
    assert_eq!(w.actors[0].combat_state.spell_cast_state, SpellCastState::Inactive);
    // selecting an ability the actor does not have selects nothing
    let mut unknown = idle();
    unknown.action_vars = SELECT_SPELL | CAST_SPELL;
    unknown.cast_spell_type = 99;
    w.advance_frame(&vec![unknown, idle()]);
    assert!(w.projectiles.is_empty());
    w.advance_frame(&vec![select, idle()]);
    let mut cast = idle();
    cast.action_vars = CAST_SPELL;
    w.advance_frame(&vec![cast, idle()]);
    assert_eq!(w.projectiles.len(), 1);
    assert_eq!(w.projectiles[0].id.0, 1);
    assert_eq!(w.actors[0].combat_state.spell_cast_state, SpellCastState::Inactive);
}

#[test]
fn simultaneous_casts_take_ids_in_handle_order() {
    let mut w = two_player_world();
    let mut cast = idle();
    cast.action_vars = SELECT_SPELL | CAST_SPELL;
    cast.mouse_position = units(0, 300);
    w.advance_frame(&vec![cast, cast]);
    assert_eq!(w.projectiles.len(), 2);
    assert_eq!((w.projectiles[0].id.0, w.projectiles[0].caster.id.handle), (1, 0));
    assert_eq!((w.projectiles[1].id.0, w.projectiles[1].caster.id.handle), (2, 1));
    assert_eq!(w.ids.current_highest_id, 2);
}

#[test]
fn wall_storage_order_does_not_change_resolution() {
    // two overlapping walls that push the actor by different amounts
    let a = wall_tile(units(-14, 0));
    let b = wall_tile(units(3, 0));
    let points = vec![spawn(0, 0, 0), spawn(1, 500, 0)];
    let mut w1 = start_round(2, vec![a, b], points.clone(), FPS).unwrap();
    let mut w2 = start_round(2, vec![b, a], points, FPS).unwrap();
    assert_eq!(w1.walls, w2.walls);
    for _ in 0..3 {
        w1.advance_frame(&vec![moving(1, 1), idle()]);
        w2.advance_frame(&vec![moving(1, 1), idle()]);
    }
    assert_eq!(w1.actors[0].transform, w2.actors[0].transform);
    assert_eq!(w1.actors[0].correction_axes, w2.actors[0].correction_axes);
}

#[test]
fn unsorted_level_data_is_not_a_valid_world() {
    let points = vec![spawn(0, 0, 0), spawn(1, 500, 0)];
    let mut w = start_round(2, vec![wall_tile(units(50, 50)), wall_tile(units(-50, 50))], points, FPS).unwrap();
    assert!(w.is_valid());
    w.walls.swap(0, 1);
    assert!(!w.is_valid());
    sort_by_key(&mut w.walls);
    assert!(w.is_valid());
    w.spawn_points.swap(0, 1);
    assert!(!w.is_valid());
}

#[test]
fn a_dashing_actor_with_a_dash_available_is_not_valid() {
    let mut w = two_player_world();
    w.actors[0].movement_state.movement_state = MovementState::Dashing { elapsed: 0, direction: Vec2::new(UNIT, 0) };
    assert!(!w.is_valid());
    w.actors[0].movement_state.can_dash = false;
    assert!(w.is_valid());
    w.actors[1].combat_state.spell_cast_state = SpellCastState::Cast;
    assert!(!w.is_valid());
}

#[test]
fn rollback_drops_a_mispredicted_cast() {
    let mut select = idle();
    select.action_vars = SELECT_SPELL;
    let mut saved = two_player_world();
    saved.advance_frame(&vec![select, idle()]);
    let mut predicted = saved.clone();
    let mut cast = idle();
    cast.action_vars = CAST_SPELL;
    predicted.advance_frame(&vec![cast, idle()]);
    assert_eq!(predicted.projectiles.len(), 1);
    assert_eq!(predicted.actors[0].combat_state.spell_cast_state, SpellCastState::Inactive);
    let mut confirmed = saved.clone();
    confirmed.advance_frame(&vec![idle(), idle()]);
    assert!(confirmed.projectiles.is_empty());
    assert_eq!(confirmed.actors[0].combat_state.spell_cast_state, saved.actors[0].combat_state.spell_cast_state);
    let mut again = saved.clone();
    again.advance_frame(&vec![idle(), idle()]);
    assert_eq!(again.actors[0].combat_state, confirmed.actors[0].combat_state);
    assert_eq!(again.ids, confirmed.ids);
}
