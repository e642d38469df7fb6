use mageling::geometry::{isqrt, Vec2, COORD_LIMIT, UNIT};
use mageling::input::{
    input, PlayerActions, PlayerControls, RawInput, CANCEL_SPELL, CAST_SPELL, DASH, PACKET_SIZE, SELECT_SPELL, SHIELD,
};
use mageling::level::{sort_by_key, team_from_field_type, wall_tile, WALL_TILE_SIZE};
use mageling::player::{
    apply_intent, tick_dash, update_animation_state, AnimationState, MovementState, PlayerMovementState,
    PlayerMovementStats, TeamId,
};
use mageling::session::{
    next_game_state, prediction_gate, state_after_error, wait_for_players, GameState, LifecycleEvent,
    MatchmakeType, RoomNetworkSettings, SessionError, WaitOutcome, FPS, INPUT_DELAY, MAX_PREDICTION_WINDOW,
};
use mageling::shapes::{aabb_overlap, circle_aabb_overlap, wall_correction, Aabb, Circle};
use mageling::spell::{
    next_cast_state, show_spell_preview, CastAction, PlayerCombatState, PlayerSpells, PreviewAction, SpellAnimation,
    SpellCastInfo, SpellCastState, SpellId, SpellLifetime, SpellType,
};
use mageling::world::{NetworkIdProvider, SpawnPoint, Wall};

fn boxed(x: i64, y: i64, w: i64, h: i64) -> Aabb {
    Aabb::new(Vec2::new(x, y), w, h)
}

fn spell(id: u32) -> SpellCastInfo {
    SpellCastInfo { spell_type: SpellType::SelfCast, cooldown: 0, spell_id: SpellId { id } }
}

fn raw() -> RawInput {
    RawInput {
        up: false,
        down: false,
        left: false,
        right: false,
        dash: false,
        select_spell: false,
        cast: false,
        cancel: false,
        cursor: Vec2::new(0, 0),
    }
}

fn stats() -> PlayerMovementStats {
    PlayerMovementStats { speed: 160, dash_power: 3, dash_duration: 9, dash_cooldown_length: 300 }
}

#[test]
fn normalize_zero_is_exactly_zero() {
    assert_eq!(Vec2::new(0, 0).normalize_or_zero(), Vec2::new(0, 0));
}

#[test]
fn normalize_gives_unit_directions() {
    assert_eq!(Vec2::new(1, 0).normalize_or_zero(), Vec2::new(UNIT, 0));
    assert_eq!(Vec2::new(0, -7).normalize_or_zero(), Vec2::new(0, -UNIT));
    assert_eq!(Vec2::new(1, 1).normalize_or_zero(), Vec2::new(707, 707));
    assert_eq!(Vec2::new(3, -4).normalize_or_zero(), Vec2::new(600, -800));
    assert_eq!(Vec2::new(COORD_LIMIT, COORD_LIMIT).normalize_or_zero(), Vec2::new(707, 707));
}

#[test]
fn isqrt_rounds_down() {
    assert_eq!(isqrt(0), 0);
    assert_eq!(isqrt(2), 1);
    assert_eq!(isqrt(1_000_000), 1000);
    assert_eq!(isqrt(u128::MAX), u64::MAX);
}

#[test]
fn clamp_forces_world_range() {
    assert_eq!(Vec2::new(i64::MIN, 5).clamp(), Vec2::new(-COORD_LIMIT, 5));
    assert_eq!(Vec2::new(3, i64::MAX).clamp(), Vec2::new(3, COORD_LIMIT));
}

#[test]
fn box_overlap_is_strict() {
    let a = boxed(0, 0, 10, 10);
    assert!(aabb_overlap(&a, &boxed(5, 5, 10, 10)));
    assert!(!aabb_overlap(&a, &boxed(10, 0, 10, 10)));
    assert!(!aabb_overlap(&a, &boxed(0, -10, 10, 10)));
}

#[test]
fn wall_correction_takes_least_penetration_axis() {
    let wall = boxed(0, 0, 16, 16);
    // overlaps 2 on x, 10 on y: pushed right
    assert_eq!(wall_correction(&wall, &boxed(14, 3, 5, 16)), Vec2::new(2, 0));
    // overlaps 3 on y from below: pushed down
    assert_eq!(wall_correction(&wall, &boxed(4, -13, 5, 16)), Vec2::new(0, -3));
    // equal depths: the x axis wins; equally near edges push forward
    assert_eq!(wall_correction(&wall, &boxed(0, 0, 16, 16)), Vec2::new(16, 0));
    // apart: no correction
    assert_eq!(wall_correction(&wall, &boxed(16, 0, 5, 5)), Vec2::new(0, 0));
    // a narrow body leaves through the nearer edge
    assert_eq!(wall_correction(&wall, &boxed(2, 0, 5, 16)), Vec2::new(-7, 0));
    assert_eq!(wall_correction(&wall, &boxed(9, 0, 5, 16)), Vec2::new(7, 0));
    let moved = boxed(2 - 7, 0, 5, 16);
    assert!(!aabb_overlap(&wall, &moved));
}

#[test]
fn circle_box_overlap_uses_nearest_point() {
    let b = boxed(0, 0, 10, 10);
    assert!(circle_aabb_overlap(&Circle::new(Vec2::new(5, 5), 1), &b));
    assert!(circle_aabb_overlap(&Circle::new(Vec2::new(13, 14), 6), &b));
    assert!(!circle_aabb_overlap(&Circle::new(Vec2::new(13, 14), 5), &b));
    assert!(!circle_aabb_overlap(&Circle::new(Vec2::new(-3, 5), 3), &b));
}

#[test]
fn shape_validity() {
    assert!(boxed(0, 0, 1, 1).is_valid());
    assert!(!boxed(0, 0, -1, 1).is_valid());
    assert!(!boxed(COORD_LIMIT + 1, 0, 1, 1).is_valid());
    assert!(!Circle::new(Vec2::new(0, 0), -5).is_valid());
}

#[test]
fn packet_layout_is_little_endian() {
    let p = PlayerControls {
        move_direction: Vec2::new(-1, 1),
        action_vars: DASH | CAST_SPELL,
        cast_spell_type: 0x0102_0304,
        mouse_position: Vec2::new(258, -2),
    };
    let b = p.to_bytes();
    assert_eq!(b.len(), PACKET_SIZE);
    assert_eq!(&b[0..8], &[0xff; 8]);
    assert_eq!(&b[8..16], &[1, 0, 0, 0, 0, 0, 0, 0]);
    assert_eq!(&b[16..20], &[10, 0, 0, 0]);
    assert_eq!(&b[20..24], &[4, 3, 2, 1]);
    assert_eq!(&b[24..32], &[2, 1, 0, 0, 0, 0, 0, 0]);
    assert_eq!(&b[32..40], &[0xfe, 0xff, 0xff, 0xff, 0xff, 0xff, 0xff, 0xff]);
    assert_eq!(PlayerControls::from_bytes(&b), Some(p));
}

#[test]
fn packet_round_trip_extremes() {
    let p = PlayerControls {
        move_direction: Vec2::new(i64::MIN, i64::MAX),
        action_vars: u32::MAX,
        cast_spell_type: 0,
        mouse_position: Vec2::new(0, -1),
    };
    assert_eq!(PlayerControls::from_bytes(&p.to_bytes()), Some(p));
    let bytes: Vec<u8> = (0..40).map(|i| (i * 37 % 256) as u8).collect();
    let q = PlayerControls::from_bytes(&bytes).unwrap();
    assert_eq!(q.to_bytes(), bytes);
    assert_eq!(PlayerControls::from_bytes(&vec![0u8; 39]), None);
    assert_eq!(PlayerControls::from_bytes(&vec![0u8; 41]), None);
}

#[test]
fn action_bits() {
    let mut p = PlayerControls::neutral();
    p.action_vars = SHIELD | DASH;
    assert!(p.has(PlayerActions::Shield));
    assert!(p.has(PlayerActions::Dash));
    assert!(!p.has(PlayerActions::CastSpell));
    assert_eq!(PlayerActions::CastSpell.bit(), CAST_SPELL);
}

#[test]
fn sampler_sums_directions_and_dashes_only_while_walking() {
    let spells = PlayerSpells { autoattack: spell(0), spells: vec![spell(4)] };
    let combat = PlayerCombatState::new();
    let mut r = raw();
    r.up = true;
    r.left = true;
    r.right = true;
    r.dash = true;
    let mut walking = PlayerMovementState::new();
    walking.movement_state = MovementState::Walking;
    let p = input(&r, &walking, combat.spell_cast_state, &spells);
    assert_eq!(p.move_direction, Vec2::new(0, 1));
    assert_eq!(p.action_vars, DASH);
    let idle = PlayerMovementState::new();
    let p = input(&r, &idle, combat.spell_cast_state, &spells);
    assert_eq!(p.action_vars, 0);
    let mut dashing = PlayerMovementState::new();
    dashing.movement_state = MovementState::Dashing { elapsed: 1, direction: Vec2::new(UNIT, 0) };
    let p = input(&r, &dashing, combat.spell_cast_state, &spells);
    assert_eq!(p.move_direction, Vec2::new(0, 0));
}

#[test]
fn sampler_selects_casts_and_cancels() {
    let spells = PlayerSpells { autoattack: spell(0), spells: vec![spell(4)] };
    let state = PlayerMovementState::new();
    let mut r = raw();
    r.select_spell = true;
    r.cursor = Vec2::new(5, 6);
    let p = input(&r, &state, SpellCastState::Inactive, &spells);
    assert_eq!(p.action_vars, SELECT_SPELL);
    assert_eq!(p.cast_spell_type, 4);
    assert_eq!(p.mouse_position, Vec2::new(5, 6));
    r.cast = true;
    let p = input(&r, &state, SpellCastState::Inactive, &spells);
    assert_eq!(p.action_vars, SELECT_SPELL | CAST_SPELL);
    let precast = SpellCastState::Precast { spell_id: spell(4) };
    let mut r = raw();
    r.cast = true;
    let p = input(&r, &state, precast, &spells);
    assert_eq!(p.action_vars, CAST_SPELL);
    assert_eq!(p.cast_spell_type, 4);
    let p = input(&r, &state, SpellCastState::Inactive, &spells);
    assert_eq!(p.action_vars, 0);
    let mut r = raw();
    r.cancel = true;
    let p = input(&r, &state, precast, &spells);
    assert_eq!(p.action_vars, CANCEL_SPELL);
    let p = input(&r, &state, SpellCastState::Inactive, &spells);
    assert_eq!(p.action_vars, 0);
}

#[test]
fn intent_and_dash_timer() {
    let mut s = PlayerMovementState::new();
    apply_intent(&mut s, Vec2::new(0, 3), false);
    assert_eq!(s.movement_state, MovementState::Walking);
    apply_intent(&mut s, Vec2::new(0, 3), true);
    assert_eq!(s.movement_state, MovementState::Dashing { elapsed: 0, direction: Vec2::new(0, UNIT) });
    assert!(!s.can_dash);
    // a dash in progress ignores new directions and dash requests
    apply_intent(&mut s, Vec2::new(1, 0), true);
    assert_eq!(s.movement_state, MovementState::Dashing { elapsed: 0, direction: Vec2::new(0, UNIT) });
    for _ in 0..8 {
        tick_dash(&mut s, &stats());
    }
    assert_eq!(s.movement_state, MovementState::Dashing { elapsed: 8, direction: Vec2::new(0, UNIT) });
    tick_dash(&mut s, &stats());
    assert_eq!(s.movement_state, MovementState::Idle);
    for _ in 0..299 {
        tick_dash(&mut s, &stats());
    }
    assert!(!s.can_dash);
    assert_eq!(s.dash_cooldown, 299);
    tick_dash(&mut s, &stats());
    assert!(s.can_dash);
    assert_eq!(s.dash_cooldown, 0);
}

#[test]
fn available_dash_keeps_cooldown_at_zero() {
    let mut s = PlayerMovementState::new();
    s.dash_cooldown = 5;
    let short = PlayerMovementStats { speed: 1, dash_power: 1, dash_duration: 1, dash_cooldown_length: 3 };
    tick_dash(&mut s, &short);
    assert!(s.can_dash);
    assert_eq!(s.dash_cooldown, 0);
}

#[test]
fn animation_follows_movement_state() {
    let mut anim = AnimationState::Idle;
    let mut s = PlayerMovementState::new();
    assert!(!update_animation_state(&s, &mut anim));
    s.movement_state = MovementState::Walking;
    assert!(update_animation_state(&s, &mut anim));
    assert_eq!(anim, AnimationState::Run);
    s.movement_state = MovementState::Dashing { elapsed: 0, direction: Vec2::new(0, 0) };
    assert!(update_animation_state(&s, &mut anim));
    assert_eq!(anim, AnimationState::Dash);
}

#[test]
fn cast_enters_cast_only_from_precast() {
    let precast = SpellCastState::Precast { spell_id: spell(1) };
    assert_eq!(next_cast_state(&SpellCastState::Inactive, &CastAction::Trigger), SpellCastState::Inactive);
    assert_eq!(next_cast_state(&precast, &CastAction::Trigger), SpellCastState::Cast);
    assert_eq!(next_cast_state(&SpellCastState::Cast, &CastAction::Trigger), SpellCastState::Inactive);
    assert_eq!(next_cast_state(&SpellCastState::Cast, &CastAction::Select(spell(2))), SpellCastState::Inactive);
    assert_eq!(next_cast_state(&precast, &CastAction::Cancel), SpellCastState::Inactive);
    assert_eq!(
        next_cast_state(&SpellCastState::Inactive, &CastAction::Select(spell(2))),
        SpellCastState::Precast { spell_id: spell(2) }
    );
}

#[test]
fn lifetime_enters_cast_then_expires() {
    let mut lt = SpellLifetime::new(3, 0, 2);
    assert!(lt.tick());
    assert!(lt.tick());
    assert_eq!(lt.phase, SpellAnimation::CastDelay);
    assert!(!lt.is_live());
    assert!(lt.tick());
    assert_eq!(lt.phase, SpellAnimation::Cast);
    assert!(lt.is_live());
    assert_eq!(lt.current_frame, 0);
    assert!(lt.tick());
    assert!(!lt.tick());
    assert_eq!(lt.current_cast_delay, 5);
    let mut instant = SpellLifetime::new(0, 0, 0);
    assert!(!instant.tick());
}

#[test]
fn preview_follows_selection() {
    let c = Vec2::new(1, 2);
    let precast = SpellCastState::Precast { spell_id: spell(1) };
    assert_eq!(show_spell_preview(&precast, false, c), PreviewAction::SpawnAt(c));
    assert_eq!(show_spell_preview(&precast, true, c), PreviewAction::MoveTo(c));
    assert_eq!(show_spell_preview(&SpellCastState::Inactive, true, c), PreviewAction::Despawn);
    assert_eq!(show_spell_preview(&SpellCastState::Cast, false, c), PreviewAction::Nothing);
}

#[test]
fn ids_increase() {
    let mut ids = NetworkIdProvider { current_highest_id: 0 };
    assert_eq!(ids.next_id(), 1);
    assert_eq!(ids.next_id(), 2);
    assert_eq!(ids.current_highest_id, 2);
}

#[test]
fn spawn_point_team_from_level_field() {
    assert_eq!(team_from_field_type(&"Team0".to_string()), TeamId { id: 0 });
    assert_eq!(team_from_field_type(&"Team1".to_string()), TeamId { id: 1 });
    assert_eq!(team_from_field_type(&"".to_string()), TeamId { id: 1 });
}

#[test]
fn wall_tiles_are_sixteen_units() {
    let w = wall_tile(Vec2::new(3, 4));
    assert_eq!(w.shape, Aabb::new(Vec2::new(3, 4), WALL_TILE_SIZE, WALL_TILE_SIZE));
    assert_eq!(WALL_TILE_SIZE, 16 * UNIT);
}

#[test]
fn level_data_sorts_deterministically() {
    let sp = |t: usize, x: i64, y: i64| SpawnPoint { team: TeamId { id: t }, position: Vec2::new(x, y) };
    let mut a = vec![sp(1, 0, 0), sp(0, 5, 1), sp(0, 5, 0), sp(1, -3, 9), sp(0, -1, 0)];
    let mut b = vec![sp(0, 5, 0), sp(1, -3, 9), sp(0, -1, 0), sp(1, 0, 0), sp(0, 5, 1)];
    sort_by_key(&mut a);
    sort_by_key(&mut b);
    assert_eq!(a, vec![sp(0, -1, 0), sp(0, 5, 0), sp(0, 5, 1), sp(1, -3, 9), sp(1, 0, 0)]);
    assert_eq!(a, b);
    let mut walls: Vec<Wall> = vec![wall_tile(Vec2::new(2, 0)), wall_tile(Vec2::new(1, 5)), wall_tile(Vec2::new(1, 2))];
    sort_by_key(&mut walls);
    let xs: Vec<(i64, i64)> = walls.iter().map(|w| (w.transform.x, w.transform.y)).collect();
    assert_eq!(xs, vec![(1, 2), (1, 5), (2, 0)]);
    let mut empty: Vec<Wall> = Vec::new();
    sort_by_key(&mut empty);
    assert!(empty.is_empty());
}

#[test]
fn room_settings_constructors() {
    let r = RoomNetworkSettings::default_matchmake_room();
    assert_eq!(r.ip, "match.gschup.dev");
    assert_eq!(r.port, "");
    assert_eq!(r.player_count, 2);
    let r = RoomNetworkSettings::custom_matchmake_room("10.0.0.1".to_string(), "99".to_string(), 4);
    assert_eq!((r.ip.as_str(), r.port.as_str(), r.player_count), ("10.0.0.1", "99", 4));
    let r = RoomNetworkSettings::private_room("abc".to_string(), 3);
    assert!(matches!(r.network_type, MatchmakeType::PrivateRoom(ref k) if k == "abc"));
    assert_eq!(RoomNetworkSettings::testing_ip().ip, "172.124.208.194");
    assert_eq!(RoomNetworkSettings::testing_local().port, "6500");
    assert_eq!(RoomNetworkSettings::default().port, "3536");
}

#[test]
fn room_urls() {
    assert_eq!(RoomNetworkSettings::testing_ip().room_url(), "ws://172.124.208.194:6500/mg23?next=2");
    let r = RoomNetworkSettings::custom_matchmake_room("h".to_string(), "1".to_string(), 1234567890);
    assert_eq!(r.room_url(), "ws://h:1/mg23?next=1234567890");
    let r = RoomNetworkSettings::private_room("key".to_string(), 10);
    assert_eq!(r.room_url(), "ws://match.gschup.dev:/key?next=10");
    let r = RoomNetworkSettings::custom_matchmake_room("h".to_string(), "1".to_string(), 0);
    assert_eq!(r.room_url(), "ws://h:1/mg23?next=0");
}

#[test]
fn waiting_for_players() {
    let s = RoomNetworkSettings::testing_local();
    assert_eq!(wait_for_players(1, &s, FPS), Ok(WaitOutcome::Waiting));
    match wait_for_players(2, &s, FPS) {
        Ok(WaitOutcome::Start(c)) => {
            assert_eq!(c.num_players, 2);
            assert_eq!(c.max_prediction_window, MAX_PREDICTION_WINDOW);
            assert_eq!(c.input_delay, INPUT_DELAY);
            assert_eq!(c.fps, 60);
        }
        other => panic!("unexpected {:?}", other),
    }
    assert_eq!(wait_for_players(2, &s, 0), Err(SessionError::ConfigurationError));
    let none = RoomNetworkSettings::custom_matchmake_room("h".to_string(), "1".to_string(), 0);
    assert_eq!(wait_for_players(5, &none, FPS), Err(SessionError::ConfigurationError));
}

#[test]
fn prediction_window_stalls() {
    assert_eq!(prediction_gate(10, 3, 8), Ok(()));
    assert_eq!(prediction_gate(11, 3, 8), Err(SessionError::PredictionStall));
    assert_eq!(prediction_gate(2, 3, 0), Ok(()));
}

#[test]
fn lifecycle_transitions() {
    assert_eq!(next_game_state(GameState::AssetLoading, LifecycleEvent::AssetsLoaded), GameState::Menu);
    assert_eq!(next_game_state(GameState::Menu, LifecycleEvent::FindMatch), GameState::WaitingForPlayers);
    assert_eq!(next_game_state(GameState::WaitingForPlayers, LifecycleEvent::SessionStarted), GameState::BetweenRound);
    assert_eq!(next_game_state(GameState::BetweenRound, LifecycleEvent::RoundStarted), GameState::InRound);
    assert_eq!(next_game_state(GameState::InRound, LifecycleEvent::Disconnected), GameState::WaitingForPlayers);
    assert_eq!(next_game_state(GameState::InRound, LifecycleEvent::MatchEnded), GameState::PostMatch);
    assert_eq!(next_game_state(GameState::Menu, LifecycleEvent::RoundStarted), GameState::Menu);
    assert_eq!(state_after_error(GameState::WaitingForPlayers, SessionError::TransportError), GameState::WaitingForPlayers);
    assert_eq!(
        state_after_error(GameState::WaitingForPlayers, SessionError::ConfigurationError),
        GameState::WaitingForPlayers
    );
    assert_eq!(state_after_error(GameState::InRound, SessionError::PredictionStall), GameState::InRound);
}
