//! Actors, projectiles and level geometry, and the stages of the per-frame
//! pipeline that update them.
//!
//! Actors are stored in handle order: the actor at index `i` has handle `i`,
//! so every traversal visits them sorted by handle. Projectiles are stored
//! in spawn order, which is the order of their ids.
use vstd::prelude::*;
use crate::geometry::{Vec2, UNIT, clamp_coord, clamp_coord_exec};
use crate::shapes::{Aabb, Circle, boxes_overlap, circle_box_overlap, correction_spec, wall_correction, circle_aabb_overlap};
use crate::player::{
    PlayerId, TeamId, Health, Movement, PlayerMovementState, PlayerMovementStats, MovementState, AnimationState,
    intent_spec, dash_timer_spec, integrate_spec, apply_intent, tick_dash, integrate_position, dash_consistent,
};
use crate::level::{SortKey, sorted_by_key, is_sorted};
use crate::spell::{
    SpellId, SpellCasterId, DamageDealer, SpellLifetime, PlayerCombatState, PlayerSpells, SpellCastInfo,
    SpellCastState, CastAction, cast_step, next_cast_state, lifetime_tick, lifetime_alive,
};
use crate::input::{PlayerControls, DASH, CAST_SPELL, SELECT_SPELL, CANCEL_SPELL};

verus! {

/// An actor: a player-controlled character.
#[derive(Clone, Debug)]
pub struct Actor {
    pub player_id: PlayerId,
    pub team_id: TeamId,
    pub transform: Vec2,
    pub movement: Movement,
    pub stats: PlayerMovementStats,
    pub movement_state: PlayerMovementState,
    pub health: Health,
    /// Collision box; its position is synced from `transform` every frame.
    pub shape: Aabb,
    /// Unit axes along which walls pushed the actor this frame.
    pub correction_axes: Vec<Vec2>,
    pub combat_state: PlayerCombatState,
    pub spells: PlayerSpells,
    pub animation_state: AnimationState,
}

/// The mathematical value of an actor.
pub struct ActorView {
    pub player_id: PlayerId,
    pub team_id: TeamId,
    pub transform: Vec2,
    pub movement: Movement,
    pub stats: PlayerMovementStats,
    pub movement_state: PlayerMovementState,
    pub health: Health,
    pub shape: Aabb,
    pub correction_axes: Seq<Vec2>,
    pub combat_state: PlayerCombatState,
    pub autoattack: SpellCastInfo,
    pub spells: Seq<SpellCastInfo>,
    pub animation_state: AnimationState,
}

impl View for Actor {
    type V = ActorView;

    open spec fn view(&self) -> ActorView {
        ActorView {
            player_id: self.player_id,
            team_id: self.team_id,
            transform: self.transform,
            movement: self.movement,
            stats: self.stats,
            movement_state: self.movement_state,
            health: self.health,
            shape: self.shape,
            correction_axes: self.correction_axes@,
            combat_state: self.combat_state,
            autoattack: self.spells.autoattack,
            spells: self.spells.spells@,
            animation_state: self.animation_state,
        }
    }
}

/// Static, immovable level geometry.
#[derive(Clone, Copy, PartialEq, Eq, Debug, Structural)]
pub struct Wall {
    pub transform: Vec2,
    pub shape: Aabb,
}

/// A team's respawn location.
#[derive(Clone, Copy, PartialEq, Eq, Debug, Structural)]
pub struct SpawnPoint {
    pub team: TeamId,
    pub position: Vec2,
}

/// Identity of a spawned projectile.
#[derive(Clone, Copy, PartialEq, Eq, Debug, Hash, PartialOrd, Ord, Structural)]
pub struct NetworkID(pub i64);

/// Issues projectile identities; owned by the world, so a rollback
/// restores it together with everything else.
#[derive(Clone, Copy, PartialEq, Eq, Debug, Structural)]
pub struct NetworkIdProvider {
    pub current_highest_id: i64,
}

impl NetworkIdProvider {
    /// Issues the next identity.
    pub fn next_id(&mut self) -> (r: i64)
        requires
            old(self).current_highest_id < i64::MAX,
        ensures
            r == old(self).current_highest_id + 1,
            final(self).current_highest_id == r,
    {
        self.current_highest_id = self.current_highest_id + 1;
        self.current_highest_id
    }
}

/// A spell in flight.
#[derive(Clone, Copy, PartialEq, Eq, Debug, Structural)]
pub struct Projectile {
    pub id: NetworkID,
    pub spell_id: SpellId,
    pub caster: SpellCasterId,
    pub damage: DamageDealer,
    pub shape: Circle,
    pub lifetime: SpellLifetime,
    pub transform: Vec2,
}

pub open spec fn actors_view(s: Seq<Actor>) -> Seq<ActorView> {
    s.map_values(|a: Actor| a@)
}

pub open spec fn unit_bounded(v: Vec2) -> bool {
    -UNIT <= v.x <= UNIT && -UNIT <= v.y <= UNIT
}

/// An actor whose coordinates are in the world, whose directions are at
/// most unit length, that has no dash available while dashing, and whose
/// cast pipeline is never left in `Cast`.
pub open spec fn actor_wf(a: ActorView) -> bool {
    &&& a.transform.in_bounds()
    &&& a.shape.wf()
    &&& unit_bounded(a.movement.velocity)
    &&& (a.movement_state.movement_state matches MovementState::Dashing { direction, .. } ==> unit_bounded(
        direction,
    ))
    &&& dash_consistent(a.movement_state)
    &&& !(a.combat_state.spell_cast_state is Cast)
}

pub open spec fn actors_wf(s: Seq<ActorView>) -> bool {
    forall|i: int| 0 <= i < s.len() ==> #[trigger] actor_wf(s[i])
}

pub open spec fn inputs_cover(s: Seq<ActorView>, inputs: Seq<PlayerControls>) -> bool {
    forall|i: int| 0 <= i < s.len() ==> (#[trigger] s[i]).player_id.handle < inputs.len()
}

pub open spec fn input_of(a: ActorView, inputs: Seq<PlayerControls>) -> PlayerControls {
    inputs[a.player_id.handle as int]
}

/// Movement intent for one actor. The requested direction is first forced
/// into the world range, so that any packet has a defined effect.
pub open spec fn move_one(a: ActorView, input: PlayerControls) -> ActorView {
    ActorView {
        movement_state: intent_spec(a.movement_state, input.move_direction.clamped(), input.action_vars & DASH != 0),
        movement: Movement { velocity: input.move_direction.clamped().normalized() },
        ..a
    }
}

pub open spec fn move_stage(s: Seq<ActorView>, inputs: Seq<PlayerControls>) -> Seq<ActorView> {
    Seq::new(s.len(), |i: int| move_one(s[i], input_of(s[i], inputs)))
}

/// Velocity integration for one actor.
pub open spec fn velocity_one(a: ActorView, fps: u32) -> ActorView {
    ActorView {
        transform: integrate_spec(a.transform, a.stats, a.movement_state.movement_state, a.movement, fps as int),
        ..a
    }
}

pub open spec fn velocity_stage(s: Seq<ActorView>, fps: u32) -> Seq<ActorView> {
    Seq::new(s.len(), |i: int| velocity_one(s[i], fps))
}

/// The dash timer for one actor.
pub open spec fn dash_one(a: ActorView) -> ActorView {
    ActorView { movement_state: dash_timer_spec(a.movement_state, a.stats), ..a }
}

pub open spec fn dash_stage(s: Seq<ActorView>) -> Seq<ActorView> {
    Seq::new(s.len(), |i: int| dash_one(s[i]))
}

/// Start of the physics step: no correction axis survives from the last
/// frame, and the collision box is moved to the actor's position.
pub open spec fn clear_one(a: ActorView) -> ActorView {
    ActorView { correction_axes: Seq::empty(), ..a }
}

pub open spec fn clear_stage(s: Seq<ActorView>) -> Seq<ActorView> {
    Seq::new(s.len(), |i: int| clear_one(s[i]))
}

pub open spec fn sync_one(a: ActorView) -> ActorView {
    ActorView { shape: Aabb { position: a.transform, ..a.shape }, ..a }
}

pub open spec fn sync_stage(s: Seq<ActorView>) -> Seq<ActorView> {
    Seq::new(s.len(), |i: int| sync_one(s[i]))
}

pub open spec fn sync_walls_stage(w: Seq<Wall>) -> Seq<Wall> {
    Seq::new(w.len(), |i: int| Wall { shape: Aabb { position: w[i].transform, ..w[i].shape }, ..w[i] })
}

proof fn lemma_view_update(s: Seq<Actor>, i: int, a: Actor)
    requires
        0 <= i < s.len(),
    ensures
        actors_view(s.update(i, a)) == actors_view(s).update(i, a@),
{
    assert(actors_view(s.update(i, a)) =~= actors_view(s).update(i, a@));
}

/// Movement intent stage: each actor takes its input's dash bit and
/// direction, in handle order.
pub fn move_players(actors: &mut Vec<Actor>, inputs: &Vec<PlayerControls>)
    requires
        inputs_cover(actors_view(old(actors)@), inputs@),
        actors_wf(actors_view(old(actors)@)),
    ensures
        actors_view(final(actors)@) == move_stage(actors_view(old(actors)@), inputs@),
        actors_wf(actors_view(final(actors)@)),
{
    let ghost pre = actors_view(actors@);
    let n = actors.len();
    for i in 0..n
        invariant
            n == actors@.len(),
            pre.len() == n,
            inputs_cover(pre, inputs@),
            actors_wf(pre),
            forall|j: int| 0 <= j < i ==> actors_view(actors@)[j] == move_one(pre[j], input_of(pre[j], inputs@)),
            forall|j: int| 0 <= j < i ==> actor_wf(#[trigger] actors_view(actors@)[j]),
            forall|j: int| i <= j < n ==> actors_view(actors@)[j] == pre[j],
    {
        let ghost before = actors@;
        assert(actors_view(before)[i as int] == pre[i as int]);
        assert(actor_wf(pre[i as int]));
        let h = actors[i].player_id.handle;
        let input = inputs[h];
        let a = &mut actors[i];
        let direction = input.move_direction.clamp();
        let velocity = direction.normalize_or_zero();
        apply_intent(&mut a.movement_state, direction, input.action_vars & DASH != 0);
        a.movement.velocity = velocity;
        proof {
            lemma_view_update(before, i as int, actors@[i as int]);
        }
    }
    assert(actors_view(actors@) =~= move_stage(pre, inputs@));
}

/// Velocity integration stage: each actor moves by one tick of its
/// velocity, at dash speed along its locked direction while dashing.
pub fn velocity_system(actors: &mut Vec<Actor>, fps: u32)
    requires
        fps > 0,
        actors_wf(actors_view(old(actors)@)),
    ensures
        actors_view(final(actors)@) == velocity_stage(actors_view(old(actors)@), fps),
        actors_wf(actors_view(final(actors)@)),
{
    let ghost pre = actors_view(actors@);
    let n = actors.len();
    for i in 0..n
        invariant
            n == actors@.len(),
            pre.len() == n,
            fps > 0,
            actors_wf(pre),
            forall|j: int| 0 <= j < i ==> actors_view(actors@)[j] == velocity_one(pre[j], fps),
            forall|j: int| 0 <= j < i ==> actor_wf(#[trigger] actors_view(actors@)[j]),
            forall|j: int| i <= j < n ==> actors_view(actors@)[j] == pre[j],
    {
        let ghost before = actors@;
        assert(actors_view(before)[i as int] == pre[i as int]);
        assert(actor_wf(pre[i as int]));
        let a = &mut actors[i];
        a.transform = integrate_position(a.transform, &a.stats, &a.movement_state.movement_state, &a.movement, fps);
        proof {
            lemma_view_update(before, i as int, actors@[i as int]);
        }
    }
    assert(actors_view(actors@) =~= velocity_stage(pre, fps));
}

/// Dash timer stage.
pub fn update_dash_info(actors: &mut Vec<Actor>)
    requires
        actors_wf(actors_view(old(actors)@)),
    ensures
        actors_view(final(actors)@) == dash_stage(actors_view(old(actors)@)),
        actors_wf(actors_view(final(actors)@)),
{
    let ghost pre = actors_view(actors@);
    let n = actors.len();
    for i in 0..n
        invariant
            n == actors@.len(),
            pre.len() == n,
            actors_wf(pre),
            forall|j: int| 0 <= j < i ==> actors_view(actors@)[j] == dash_one(pre[j]),
            forall|j: int| 0 <= j < i ==> actor_wf(#[trigger] actors_view(actors@)[j]),
            forall|j: int| i <= j < n ==> actors_view(actors@)[j] == pre[j],
    {
        let ghost before = actors@;
        assert(actors_view(before)[i as int] == pre[i as int]);
        assert(actor_wf(pre[i as int]));
        let a = &mut actors[i];
        tick_dash(&mut a.movement_state, &a.stats);
        proof {
            lemma_view_update(before, i as int, actors@[i as int]);
        }
    }
    assert(actors_view(actors@) =~= dash_stage(pre));
}

/// Clears every actor's correction axes.
pub fn clear_correction_system(actors: &mut Vec<Actor>)
    requires
        actors_wf(actors_view(old(actors)@)),
    ensures
        actors_view(final(actors)@) == clear_stage(actors_view(old(actors)@)),
        actors_wf(actors_view(final(actors)@)),
{
    let ghost pre = actors_view(actors@);
    let n = actors.len();
    for i in 0..n
        invariant
            n == actors@.len(),
            pre.len() == n,
            actors_wf(pre),
            forall|j: int| 0 <= j < i ==> actors_view(actors@)[j] == clear_one(pre[j]),
            forall|j: int| 0 <= j < i ==> actor_wf(#[trigger] actors_view(actors@)[j]),
            forall|j: int| i <= j < n ==> actors_view(actors@)[j] == pre[j],
    {
        let ghost before = actors@;
        assert(actors_view(before)[i as int] == pre[i as int]);
        assert(actor_wf(pre[i as int]));
        let a = &mut actors[i];
        a.correction_axes.clear();
        proof {
            lemma_view_update(before, i as int, actors@[i as int]);
            assert(actors@[i as int]@ =~= clear_one(pre[i as int]));
        }
    }
    assert(actors_view(actors@) =~= clear_stage(pre));
}

/// Moves each actor's collision box to the actor's position.
pub fn update_movable_system(actors: &mut Vec<Actor>)
    requires
        actors_wf(actors_view(old(actors)@)),
    ensures
        actors_view(final(actors)@) == sync_stage(actors_view(old(actors)@)),
        actors_wf(actors_view(final(actors)@)),
{
    let ghost pre = actors_view(actors@);
    let n = actors.len();
    for i in 0..n
        invariant
            n == actors@.len(),
            pre.len() == n,
            actors_wf(pre),
            forall|j: int| 0 <= j < i ==> actors_view(actors@)[j] == sync_one(pre[j]),
            forall|j: int| 0 <= j < i ==> actor_wf(#[trigger] actors_view(actors@)[j]),
            forall|j: int| i <= j < n ==> actors_view(actors@)[j] == pre[j],
    {
        let ghost before = actors@;
        assert(actors_view(before)[i as int] == pre[i as int]);
        assert(actor_wf(pre[i as int]));
        let a = &mut actors[i];
        a.shape.position = a.transform;
        proof {
            lemma_view_update(before, i as int, actors@[i as int]);
        }
    }
    assert(actors_view(actors@) =~= sync_stage(pre));
}

pub open spec fn walls_wf(w: Seq<Wall>) -> bool {
    forall|i: int| 0 <= i < w.len() ==> (#[trigger] w[i]).shape.wf() && w[i].transform.in_bounds()
}

/// Moves each wall's collision box to the wall's position; the walls stay
/// in their fixed order.
pub fn update_walls_system(walls: &mut Vec<Wall>)
    requires
        walls_wf(old(walls)@),
        sorted_by_key(old(walls)@),
    ensures
        final(walls)@ == sync_walls_stage(old(walls)@),
        walls_wf(final(walls)@),
        sorted_by_key(final(walls)@),
{
    let ghost pre = walls@;
    let n = walls.len();
    for i in 0..n
        invariant
            n == walls@.len(),
            pre.len() == n,
            walls_wf(pre),
            forall|j: int| 0 <= j < i ==> walls@[j] == sync_walls_stage(pre)[j],
            forall|j: int| i <= j < n ==> walls@[j] == pre[j],
    {
        let w = &mut walls[i];
        w.shape.position = w.transform;
    }
    assert(walls@ =~= sync_walls_stage(pre));
}

/// Resolution against one wall: the minimal correction moves both the box
/// and the actor; a non-zero correction records its unit axis.
pub open spec fn collide_one(a: ActorView, wall: Wall) -> ActorView {
    let c = correction_spec(wall.shape, a.shape);
    let p = Vec2 {
        x: clamp_coord(a.shape.position.x + c.x) as i64,
        y: clamp_coord(a.shape.position.y + c.y) as i64,
    };
    ActorView {
        shape: Aabb { position: p, ..a.shape },
        transform: p,
        correction_axes: if c.is_zero() {
            a.correction_axes
        } else {
            a.correction_axes.push(c.normalized())
        },
        ..a
    }
}

/// Resolution against the first `k` walls, one after another.
pub open spec fn collide_walls(a: ActorView, walls: Seq<Wall>, k: nat) -> ActorView
    decreases k,
{
    if k == 0 {
        a
    } else {
        collide_one(collide_walls(a, walls, (k - 1) as nat), walls[k - 1])
    }
}

pub open spec fn collision_stage(s: Seq<ActorView>, walls: Seq<Wall>) -> Seq<ActorView> {
    Seq::new(s.len(), |i: int| collide_walls(s[i], walls, walls.len()))
}

/// Resolves one actor against every wall in order.
fn collide_actor(a: &mut Actor, walls: &Vec<Wall>)
    requires
        actor_wf(old(a)@),
        walls_wf(walls@),
    ensures
        final(a)@ == collide_walls(old(a)@, walls@, walls@.len()),
        actor_wf(final(a)@),
{
    let ghost start = a@;
    let n = walls.len();
    for k in 0..n
        invariant
            n == walls@.len(),
            walls_wf(walls@),
            a@ == collide_walls(start, walls@, k as nat),
            actor_wf(a@),
    {
        let wall = walls[k];
        assert(walls_wf(walls@) ==> wall.shape.wf());
        let c = wall_correction(&wall.shape, &a.shape);
        let x = clamp_coord_exec(a.shape.position.x as i128 + c.x as i128);
        let y = clamp_coord_exec(a.shape.position.y as i128 + c.y as i128);
        let p = Vec2 { x, y };
        a.shape.position = p;
        a.transform = p;
        if !(c.x == 0 && c.y == 0) {
            let axis = c.normalize_or_zero();
            a.correction_axes.push(axis);
        }
        assert(a@ =~= collide_one(collide_walls(start, walls@, k as nat), walls@[k as int]));
    }
}

/// Wall collision stage: each actor, in handle order, is resolved against
/// every wall in the walls' fixed order, accumulating the corrections.
pub fn collision_system(actors: &mut Vec<Actor>, walls: &Vec<Wall>)
    requires
        actors_wf(actors_view(old(actors)@)),
        walls_wf(walls@),
        sorted_by_key(walls@),
    ensures
        actors_view(final(actors)@) == collision_stage(actors_view(old(actors)@), walls@),
        actors_wf(actors_view(final(actors)@)),
{
    let ghost pre = actors_view(actors@);
    let n = actors.len();
    for i in 0..n
        invariant
            n == actors@.len(),
            pre.len() == n,
            actors_wf(pre),
            walls_wf(walls@),
            forall|j: int| 0 <= j < i ==> actors_view(actors@)[j] == collide_walls(pre[j], walls@, walls@.len()),
            forall|j: int| 0 <= j < i ==> actor_wf(#[trigger] actors_view(actors@)[j]),
            forall|j: int| i <= j < n ==> actors_view(actors@)[j] == pre[j],
    {
        let ghost before = actors@;
        assert(actors_view(before)[i as int] == pre[i as int]);
        assert(actor_wf(pre[i as int]));
        collide_actor(&mut actors[i], walls);
        proof {
            lemma_view_update(before, i as int, actors@[i as int]);
        }
    }
    assert(actors_view(actors@) =~= collision_stage(pre, walls@));
}

proof fn lemma_no_overlap_prefix(a: ActorView, walls: Seq<Wall>, k: nat)
    requires
        k <= walls.len(),
        a.shape.wf(),
        a.transform == a.shape.position,
        forall|j: int| 0 <= j < walls.len() ==> !boxes_overlap(#[trigger] walls[j].shape, a.shape),
    ensures
        collide_walls(a, walls, k) == a,
    decreases k,
{
    if k > 0 {
        lemma_no_overlap_prefix(a, walls, (k - 1) as nat);
        assert(!boxes_overlap(walls[k - 1].shape, a.shape));
        assert(collide_one(a, walls[k - 1]) =~= a);
    }
}

/// A frame with no wall overlap leaves no correction axis: an actor whose
/// axes were cleared and whose box sits at its position, overlapping no
/// wall, comes out of wall resolution unchanged, with an empty axis list.
pub proof fn lemma_no_overlap_no_axes(a: ActorView, walls: Seq<Wall>)
    requires
        a.correction_axes.len() == 0,
        a.shape.wf(),
        a.transform == a.shape.position,
        forall|j: int| 0 <= j < walls.len() ==> !boxes_overlap(#[trigger] walls[j].shape, a.shape),
    ensures
        collide_walls(a, walls, walls.len()) == a,
        collide_walls(a, walls, walls.len()).correction_axes.len() == 0,
{
    lemma_no_overlap_prefix(a, walls, walls.len());
}

/// Radius of a cast projectile.
pub const PROJECTILE_RADIUS: i64 = 65 * UNIT;
/// Damage a cast projectile carries.
pub const PROJECTILE_DAMAGE: u32 = 30;
/// Animation frames of a projectile's explosion.
pub const EXPLOSION_FRAMES: u32 = 6;

/// The projectile an actor's cast spawns: the selected ability, at the
/// cursor (forced into the world), waiting one second of ticks before it
/// goes off.
pub open spec fn spawned_projectile(id: i64, caster: PlayerId, spell: SpellId, at: Vec2, fps: u32) -> Projectile {
    Projectile {
        id: NetworkID(id),
        spell_id: spell,
        caster: SpellCasterId { id: caster },
        damage: DamageDealer { damage_amount: PROJECTILE_DAMAGE },
        shape: Circle { position: at.clamped(), radius: PROJECTILE_RADIUS },
        lifetime: SpellLifetime {
            max_cast_delay: fps,
            current_cast_delay: 0,
            max_cast_frame: 0,
            max_explosion_frame: EXPLOSION_FRAMES,
            phase: crate::spell::SpellAnimation::CastDelay,
            current_frame: 0,
        },
        transform: at.clamped(),
    }
}

pub open spec fn projectiles_wf(ps: Seq<Projectile>) -> bool {
    forall|j: int| 0 <= j < ps.len() ==> (#[trigger] ps[j]).shape.wf()
}

/// The actor's ability with id `id`: the last one in its list.
pub open spec fn ability_by_id(spells: Seq<SpellCastInfo>, id: u32) -> Option<SpellCastInfo>
    decreases spells.len(),
{
    if spells.len() == 0 {
        None
    } else if spells.last().spell_id.id == id {
        Some(spells.last())
    } else {
        ability_by_id(spells.drop_last(), id)
    }
}

/// The cast pipeline after the packet's selection: a selection of one of
/// the actor's abilities makes it the selected one.
pub open spec fn selected_state(a: ActorView, input: PlayerControls) -> SpellCastState {
    let s = a.combat_state.spell_cast_state;
    if input.action_vars & SELECT_SPELL != 0 && ability_by_id(a.spells, input.cast_spell_type) is Some {
        cast_step(s, CastAction::Select(ability_by_id(a.spells, input.cast_spell_type)->0))
    } else {
        s
    }
}

/// The cast pipeline after the packet's trigger or cancel.
pub open spec fn triggered_state(a: ActorView, input: PlayerControls) -> SpellCastState {
    let s = selected_state(a, input);
    if input.action_vars & CAST_SPELL != 0 {
        cast_step(s, CastAction::Trigger)
    } else if input.action_vars & CANCEL_SPELL != 0 {
        cast_step(s, CastAction::Cancel)
    } else {
        s
    }
}

/// One actor's part of the cast stage. When its packet moves its cast
/// pipeline into `Cast`, the selected ability goes off: while identities
/// last a projectile with the next identity is spawned, and `Cast` resolves
/// at once to `Inactive`.
pub open spec fn cast_one(
    a: ActorView,
    input: PlayerControls,
    projs: Seq<Projectile>,
    ids: NetworkIdProvider,
    fps: u32,
) -> (ActorView, Seq<Projectile>, NetworkIdProvider) {
    let fired = triggered_state(a, input);
    if fired is Cast {
        let a2 = ActorView {
            combat_state: PlayerCombatState { spell_cast_state: cast_step(fired, CastAction::Cancel) },
            ..a
        };
        if ids.current_highest_id < i64::MAX {
            let id = (ids.current_highest_id + 1) as i64;
            let spell = selected_state(a, input)->spell_id.spell_id;
            (
                a2,
                projs.push(spawned_projectile(id, a.player_id, spell, input.mouse_position, fps)),
                NetworkIdProvider { current_highest_id: id },
            )
        } else {
            (a2, projs, ids)
        }
    } else {
        (ActorView { combat_state: PlayerCombatState { spell_cast_state: fired }, ..a }, projs, ids)
    }
}

/// The cast stage over the first `k` actors, in handle order.
pub open spec fn cast_prefix(
    s: Seq<ActorView>,
    inputs: Seq<PlayerControls>,
    projs: Seq<Projectile>,
    ids: NetworkIdProvider,
    fps: u32,
    k: nat,
) -> (Seq<ActorView>, Seq<Projectile>, NetworkIdProvider)
    decreases k,
{
    if k == 0 {
        (s, projs, ids)
    } else {
        let prev = cast_prefix(s, inputs, projs, ids, fps, (k - 1) as nat);
        let a = prev.0[k - 1];
        let r = cast_one(a, input_of(a, inputs), prev.1, prev.2, fps);
        (prev.0.update(k - 1, r.0), r.1, r.2)
    }
}

/// A projectile is spawned only when a trigger moves a selected ability
/// from `Precast` to `Cast`, at most one per actor and frame, and no actor
/// is left in `Cast` after the stage.
pub proof fn lemma_spawn_only_from_precast(
    a: ActorView,
    input: PlayerControls,
    projs: Seq<Projectile>,
    ids: NetworkIdProvider,
    fps: u32,
)
    requires
        !(a.combat_state.spell_cast_state is Cast),
    ensures
        cast_one(a, input, projs, ids, fps).1.len() > projs.len() ==> (selected_state(a, input) is Precast
            && input.action_vars & CAST_SPELL != 0),
        cast_one(a, input, projs, ids, fps).1.len() <= projs.len() + 1,
        !(cast_one(a, input, projs, ids, fps).0.combat_state.spell_cast_state is Cast),
{
    let s = selected_state(a, input);
    if input.action_vars & CAST_SPELL != 0 {
        crate::spell::lemma_cast_only_from_precast(s, CastAction::Trigger);
    } else if input.action_vars & CANCEL_SPELL != 0 {
        crate::spell::lemma_cast_only_from_precast(s, CastAction::Cancel);
    }
}

proof fn lemma_cast_prefix_frame(
    s: Seq<ActorView>,
    inputs: Seq<PlayerControls>,
    projs: Seq<Projectile>,
    ids: NetworkIdProvider,
    fps: u32,
    k: nat,
)
    requires
        k <= s.len(),
        actors_wf(s),
        projectiles_wf(projs),
    ensures
        cast_prefix(s, inputs, projs, ids, fps, k).0.len() == s.len(),
        forall|j: int| k <= j < s.len() ==> cast_prefix(s, inputs, projs, ids, fps, k).0[j] == s[j],
        forall|j: int| 0 <= j < s.len() ==> (#[trigger] cast_prefix(s, inputs, projs, ids, fps, k).0[j]).player_id
            == s[j].player_id,
        actors_wf(cast_prefix(s, inputs, projs, ids, fps, k).0),
        projectiles_wf(cast_prefix(s, inputs, projs, ids, fps, k).1),
    decreases k,
{
    if k > 0 {
        lemma_cast_prefix_frame(s, inputs, projs, ids, fps, (k - 1) as nat);
        let prev = cast_prefix(s, inputs, projs, ids, fps, (k - 1) as nat);
        let cur = cast_prefix(s, inputs, projs, ids, fps, k);
        assert(actor_wf(prev.0[k - 1]));
        lemma_spawn_only_from_precast(prev.0[k - 1], input_of(prev.0[k - 1], inputs), prev.1, prev.2, fps);
        assert forall|j: int| 0 <= j < cur.0.len() implies #[trigger] actor_wf(cur.0[j]) by {
            assert(actor_wf(prev.0[j]));
        }
        assert forall|j: int| 0 <= j < cur.1.len() implies (#[trigger] cur.1[j]).shape.wf() by {
            if j < prev.1.len() {
                assert(prev.1[j].shape.wf());
            }
        }
    }
}

/// Finds the actor's ability with id `id`.
pub fn find_ability(spells: &Vec<SpellCastInfo>, id: u32) -> (r: Option<SpellCastInfo>)
    ensures
        r == ability_by_id(spells@, id),
{
    let mut found: Option<SpellCastInfo> = None;
    let n = spells.len();
    for k in 0..n
        invariant
            n == spells@.len(),
            found == ability_by_id(spells@.subrange(0, k as int), id),
    {
        let ghost next = spells@.subrange(0, k + 1);
        assert(next.drop_last() =~= spells@.subrange(0, k as int));
        if spells[k].spell_id.id == id {
            found = Some(spells[k]);
        }
    }
    assert(spells@.subrange(0, n as int) =~= spells@);
    found
}

/// Ability cast stage: in handle order, each actor's packet selects,
/// triggers or cancels through its cast pipeline; a trigger of a selected
/// ability spawns a projectile at the cursor with the next identity, while
/// identities last.
pub fn handle_spell_casts(
    actors: &mut Vec<Actor>,
    projectiles: &mut Vec<Projectile>,
    ids: &mut NetworkIdProvider,
    inputs: &Vec<PlayerControls>,
    fps: u32,
)
    requires
        inputs_cover(actors_view(old(actors)@), inputs@),
        actors_wf(actors_view(old(actors)@)),
        projectiles_wf(old(projectiles)@),
    ensures
        (actors_view(final(actors)@), final(projectiles)@, *final(ids)) == cast_prefix(
            actors_view(old(actors)@),
            inputs@,
            old(projectiles)@,
            *old(ids),
            fps,
            old(actors)@.len() as nat,
        ),
        actors_wf(actors_view(final(actors)@)),
        projectiles_wf(final(projectiles)@),
{
    let ghost pre = actors_view(actors@);
    let ghost pre_p = projectiles@;
    let ghost pre_ids = *ids;
    let n = actors.len();
    for i in 0..n
        invariant
            n == actors@.len(),
            pre.len() == n,
            inputs_cover(pre, inputs@),
            actors_wf(pre),
            projectiles_wf(pre_p),
            (actors_view(actors@), projectiles@, *ids) == cast_prefix(pre, inputs@, pre_p, pre_ids, fps, i as nat),
    {
        proof {
            lemma_cast_prefix_frame(pre, inputs@, pre_p, pre_ids, fps, i as nat);
            lemma_cast_prefix_frame(pre, inputs@, pre_p, pre_ids, fps, (i + 1) as nat);
            assert(actors_view(actors@)[i as int] == pre[i as int]);
        }
        let ghost before = actors@;
        let ghost a = actors@[i as int]@;
        assert(actor_wf(pre[i as int]));
        assert(a == pre[i as int]);
        let h = actors[i].player_id.handle;
        let input = inputs[h];
        let current = actors[i].combat_state.spell_cast_state;
        let mut selected = current;
        if input.action_vars & SELECT_SPELL != 0 {
            if let Some(info) = find_ability(&actors[i].spells.spells, input.cast_spell_type) {
                selected = next_cast_state(&current, &CastAction::Select(info));
            }
        }
        assert(selected == selected_state(a, input));
        let fired = if input.action_vars & CAST_SPELL != 0 {
            next_cast_state(&selected, &CastAction::Trigger)
        } else if input.action_vars & CANCEL_SPELL != 0 {
            next_cast_state(&selected, &CastAction::Cancel)
        } else {
            selected
        };
        assert(fired == triggered_state(a, input));
        if let SpellCastState::Cast = fired {
            assert(selected is Precast);
            actors[i].combat_state.spell_cast_state = next_cast_state(&fired, &CastAction::Cancel);
            proof {
                lemma_view_update(before, i as int, actors@[i as int]);
            }
            if ids.current_highest_id < i64::MAX {
                let id = ids.next_id();
                let at = input.mouse_position.clamp();
                let caster = actors[i].player_id;
                let spell = match selected {
                    SpellCastState::Precast { spell_id } => spell_id.spell_id,
                    _ => SpellId { id: 0 },
                };
                projectiles.push(
                    Projectile {
                        id: NetworkID(id),
                        spell_id: spell,
                        caster: SpellCasterId { id: caster },
                        damage: DamageDealer { damage_amount: PROJECTILE_DAMAGE },
                        shape: Circle { position: at, radius: PROJECTILE_RADIUS },
                        lifetime: SpellLifetime::new(fps, 0, EXPLOSION_FRAMES),
                        transform: at,
                    },
                );
                assert(projectiles@.last() == spawned_projectile(id, a.player_id, spell, input.mouse_position, fps));
            }
        } else {
            actors[i].combat_state.spell_cast_state = fired;
            proof {
                lemma_view_update(before, i as int, actors@[i as int]);
            }
        }
    }
    proof {
        lemma_cast_prefix_frame(pre, inputs@, pre_p, pre_ids, fps, n as nat);
    }
}

/// A live projectile hits an actor other than its caster that it overlaps.
pub open spec fn hits(p: Projectile, a: ActorView) -> bool {
    &&& p.lifetime.phase is Cast
    &&& p.caster.id.handle != a.player_id.handle
    &&& circle_box_overlap(p.shape, a.shape)
}

pub open spec fn hit_by_any(ps: Seq<Projectile>, a: ActorView) -> bool {
    exists|j: int| 0 <= j < ps.len() && hits(#[trigger] ps[j], a)
}

/// The respawn location of a team: the last of its spawn points in the
/// (sorted) list.
pub open spec fn spawn_for_team(points: Seq<SpawnPoint>, team: TeamId) -> Option<Vec2>
    decreases points.len(),
{
    if points.len() == 0 {
        None
    } else if points.last().team == team {
        Some(points.last().position)
    } else {
        spawn_for_team(points.drop_last(), team)
    }
}

/// A hit actor is moved to its own team's spawn point.
pub open spec fn respawn_one(a: ActorView, ps: Seq<Projectile>, points: Seq<SpawnPoint>) -> ActorView {
    if hit_by_any(ps, a) && spawn_for_team(points, a.team_id) is Some {
        ActorView { transform: spawn_for_team(points, a.team_id)->0, ..a }
    } else {
        a
    }
}

pub open spec fn respawn_stage(s: Seq<ActorView>, ps: Seq<Projectile>, points: Seq<SpawnPoint>) -> Seq<ActorView> {
    Seq::new(s.len(), |i: int| respawn_one(s[i], ps, points))
}

pub open spec fn spawn_points_wf(points: Seq<SpawnPoint>) -> bool {
    forall|j: int| 0 <= j < points.len() ==> (#[trigger] points[j]).position.in_bounds()
}

/// Finds a team's respawn location.
pub fn find_spawn_point(points: &Vec<SpawnPoint>, team: TeamId) -> (r: Option<Vec2>)
    ensures
        r == spawn_for_team(points@, team),
        spawn_points_wf(points@) && r is Some ==> r->0.in_bounds(),
{
    let mut found: Option<Vec2> = None;
    let n = points.len();
    for k in 0..n
        invariant
            n == points@.len(),
            found == spawn_for_team(points@.subrange(0, k as int), team),
            spawn_points_wf(points@) && found is Some ==> found->0.in_bounds(),
    {
        let ghost next = points@.subrange(0, k + 1);
        assert(next.drop_last() =~= points@.subrange(0, k as int));
        if points[k].team == team {
            found = Some(points[k].position);
        }
    }
    assert(points@.subrange(0, n as int) =~= points@);
    found
}

fn hit_by_any_exec(ps: &Vec<Projectile>, a: &Actor) -> (r: bool)
    requires
        projectiles_wf(ps@),
        a.shape.wf(),
    ensures
        r == hit_by_any(ps@, a@),
{
    let n = ps.len();
    let mut found = false;
    for k in 0..n
        invariant
            n == ps@.len(),
            projectiles_wf(ps@),
            a.shape.wf(),
            found == exists|j: int| 0 <= j < k && hits(#[trigger] ps@[j], a@),
    {
        let p = ps[k];
        assert(p.shape.wf());
        let live = p.lifetime.is_live();
        if live && p.caster.id.handle != a.player_id.handle && circle_aabb_overlap(&p.shape, &a.shape) {
            found = true;
        }
        assert(hits(ps@[k as int], a@) == (live && p.caster.id.handle != a.player_id.handle && circle_box_overlap(p.shape, a.shape)));
    }
    found
}

/// Projectile collision stage: every actor that a live projectile of
/// another caster overlaps is moved to its team's spawn point. Overlap is
/// tested against the boxes as wall resolution left them.
pub fn spell_collision_system(actors: &mut Vec<Actor>, projectiles: &Vec<Projectile>, spawn_points: &Vec<SpawnPoint>)
    requires
        actors_wf(actors_view(old(actors)@)),
        projectiles_wf(projectiles@),
        spawn_points_wf(spawn_points@),
        sorted_by_key(spawn_points@),
    ensures
        actors_view(final(actors)@) == respawn_stage(actors_view(old(actors)@), projectiles@, spawn_points@),
        actors_wf(actors_view(final(actors)@)),
{
    let ghost pre = actors_view(actors@);
    let n = actors.len();
    for i in 0..n
        invariant
            n == actors@.len(),
            pre.len() == n,
            actors_wf(pre),
            projectiles_wf(projectiles@),
            spawn_points_wf(spawn_points@),
            forall|j: int| 0 <= j < i ==> actors_view(actors@)[j] == respawn_one(pre[j], projectiles@, spawn_points@),
            forall|j: int| 0 <= j < i ==> actor_wf(#[trigger] actors_view(actors@)[j]),
            forall|j: int| i <= j < n ==> actors_view(actors@)[j] == pre[j],
    {
        let ghost before = actors@;
        assert(actors_view(before)[i as int] == pre[i as int]);
        assert(actor_wf(pre[i as int]));
        let hit = hit_by_any_exec(projectiles, &actors[i]);
        if hit {
            let team = actors[i].team_id;
            if let Some(p) = find_spawn_point(spawn_points, team) {
                actors[i].transform = p;
            }
        }
        proof {
            lemma_view_update(before, i as int, actors@[i as int]);
        }
    }
    assert(actors_view(actors@) =~= respawn_stage(pre, projectiles@, spawn_points@));
}

/// Lifetime stage: every projectile ticks, in order; those whose explosion
/// has played out are removed.
pub open spec fn lifetime_stage(ps: Seq<Projectile>) -> Seq<Projectile>
    decreases ps.len(),
{
    if ps.len() == 0 {
        Seq::empty()
    } else {
        let rest = lifetime_stage(ps.drop_last());
        let p = Projectile { lifetime: lifetime_tick(ps.last().lifetime), ..ps.last() };
        if lifetime_alive(p.lifetime) {
            rest.push(p)
        } else {
            rest
        }
    }
}

proof fn lemma_lifetime_stage_wf(ps: Seq<Projectile>)
    requires
        projectiles_wf(ps),
    ensures
        projectiles_wf(lifetime_stage(ps)),
    decreases ps.len(),
{
    if ps.len() > 0 {
        assert(projectiles_wf(ps.drop_last())) by {
            assert forall|j: int| 0 <= j < ps.drop_last().len() implies (#[trigger] ps.drop_last()[j]).shape.wf() by {
                assert(ps[j].shape.wf());
            }
        }
        lemma_lifetime_stage_wf(ps.drop_last());
        assert(ps[ps.len() - 1].shape.wf());
    }
}

/// Ticks every projectile's lifetime and removes the expired ones.
pub fn update_spell_lifetimes(projectiles: &mut Vec<Projectile>)
    requires
        projectiles_wf(old(projectiles)@),
    ensures
        final(projectiles)@ == lifetime_stage(old(projectiles)@),
        projectiles_wf(final(projectiles)@),
{
    let mut out: Vec<Projectile> = Vec::new();
    let n = projectiles.len();
    for k in 0..n
        invariant
            n == projectiles@.len(),
            out@ == lifetime_stage(projectiles@.subrange(0, k as int)),
    {
        let ghost next = projectiles@.subrange(0, k + 1);
        assert(next.drop_last() =~= projectiles@.subrange(0, k as int));
        let mut p = projectiles[k];
        let alive = p.lifetime.tick();
        if alive {
            out.push(p);
        }
    }
    assert(projectiles@.subrange(0, n as int) =~= projectiles@);
    proof {
        lemma_lifetime_stage_wf(projectiles@);
    }
    *projectiles = out;
}

/// The simulated world of one round.
#[derive(Clone, Debug)]
pub struct World {
    /// Actors in handle order: the actor at index `i` has handle `i`.
    pub actors: Vec<Actor>,
    /// Projectiles in spawn order.
    pub projectiles: Vec<Projectile>,
    pub walls: Vec<Wall>,
    pub spawn_points: Vec<SpawnPoint>,
    pub ids: NetworkIdProvider,
    /// Simulation ticks per second.
    pub fps: u32,
}

/// The mathematical value of a world.
pub struct WorldView {
    pub actors: Seq<ActorView>,
    pub projectiles: Seq<Projectile>,
    pub walls: Seq<Wall>,
    pub spawn_points: Seq<SpawnPoint>,
    pub ids: NetworkIdProvider,
    pub fps: u32,
}

impl View for World {
    type V = WorldView;

    open spec fn view(&self) -> WorldView {
        WorldView {
            actors: actors_view(self.actors@),
            projectiles: self.projectiles@,
            walls: self.walls@,
            spawn_points: self.spawn_points@,
            ids: self.ids,
            fps: self.fps,
        }
    }
}

pub open spec fn handles_ok(s: Seq<ActorView>) -> bool {
    forall|i: int| 0 <= i < s.len() ==> (#[trigger] s[i]).player_id.handle == i
}

impl WorldView {
    pub open spec fn wf(self) -> bool {
        &&& self.fps > 0
        &&& handles_ok(self.actors)
        &&& actors_wf(self.actors)
        &&& projectiles_wf(self.projectiles)
        &&& walls_wf(self.walls)
        &&& sorted_by_key(self.walls)
        &&& spawn_points_wf(self.spawn_points)
        &&& sorted_by_key(self.spawn_points)
    }
}

/// One simulated frame, stage by stage: movement intent, ability casts,
/// velocity integration, dash timers, correction clear, shape sync, wall
/// collision, projectile collision, projectile lifetimes.
pub open spec fn frame_spec(w: WorldView, inputs: Seq<PlayerControls>) -> WorldView {
    let cast = cast_result(w, inputs);
    let walls = sync_walls_stage(w.walls);
    let resolved = collision_stage(physics_input(w, inputs), walls);
    let respawned = respawn_stage(resolved, cast.1, w.spawn_points);
    WorldView {
        actors: respawned,
        projectiles: lifetime_stage(cast.1),
        walls,
        spawn_points: w.spawn_points,
        ids: cast.2,
        fps: w.fps,
    }
}

/// Actors, projectiles and identities after the movement intent and
/// ability cast stages of a frame.
pub open spec fn cast_result(w: WorldView, inputs: Seq<PlayerControls>) -> (
    Seq<ActorView>,
    Seq<Projectile>,
    NetworkIdProvider,
) {
    cast_prefix(move_stage(w.actors, inputs), inputs, w.projectiles, w.ids, w.fps, w.actors.len())
}

/// Actors as a frame's physics step receives them: moved, dash timers
/// advanced, correction axes cleared and boxes synced to positions.
pub open spec fn physics_input(w: WorldView, inputs: Seq<PlayerControls>) -> Seq<ActorView> {
    sync_stage(clear_stage(dash_stage(velocity_stage(cast_result(w, inputs).0, w.fps))))
}

/// The frames of `frames`, one after another.
pub open spec fn run_spec(w: WorldView, frames: Seq<Seq<PlayerControls>>) -> WorldView
    decreases frames.len(),
{
    if frames.len() == 0 {
        w
    } else {
        frame_spec(run_spec(w, frames.drop_last()), frames.last())
    }
}

pub open spec fn frames_view(frames: Seq<Vec<PlayerControls>>) -> Seq<Seq<PlayerControls>> {
    frames.map_values(|f: Vec<PlayerControls>| f@)
}

/// Every frame of `frames` holds one packet per actor.
pub open spec fn frames_fit(frames: Seq<Seq<PlayerControls>>, n: nat) -> bool {
    forall|k: int| 0 <= k < frames.len() ==> (#[trigger] frames[k]).len() == n
}

proof fn lemma_collide_keeps_id(a: ActorView, walls: Seq<Wall>, k: nat)
    ensures
        collide_walls(a, walls, k).player_id == a.player_id,
    decreases k,
{
    if k > 0 {
        lemma_collide_keeps_id(a, walls, (k - 1) as nat);
    }
}

impl World {
    /// Simulates one frame with one packet per actor, indexed by handle.
    /// The result depends on the world and the packets alone.
    pub fn advance_frame(&mut self, inputs: &Vec<PlayerControls>)
        requires
            old(self)@.wf(),
            inputs@.len() == old(self)@.actors.len(),
        ensures
            final(self)@ == frame_spec(old(self)@, inputs@),
            final(self)@.wf(),
    {
        let ghost w = self@;
        move_players(&mut self.actors, inputs);
        let ghost moved = actors_view(self.actors@);
        assert(moved =~= move_stage(w.actors, inputs@));
        assert(moved.len() == w.actors.len());
        assert(handles_ok(moved));
        handle_spell_casts(&mut self.actors, &mut self.projectiles, &mut self.ids, inputs, self.fps);
        proof {
            lemma_cast_prefix_frame(moved, inputs@, w.projectiles, w.ids, w.fps, moved.len());
        }
        let ghost cast = actors_view(self.actors@);
        assert(handles_ok(cast));
        velocity_system(&mut self.actors, self.fps);
        assert(handles_ok(actors_view(self.actors@)));
        update_dash_info(&mut self.actors);
        assert(handles_ok(actors_view(self.actors@)));
        clear_correction_system(&mut self.actors);
        assert(handles_ok(actors_view(self.actors@)));
        update_movable_system(&mut self.actors);
        assert(handles_ok(actors_view(self.actors@)));
        update_walls_system(&mut self.walls);
        let ghost synced = actors_view(self.actors@);
        collision_system(&mut self.actors, &self.walls);
        assert(handles_ok(actors_view(self.actors@))) by {
            assert forall|i: int| 0 <= i < synced.len() implies #[trigger] collide_walls(
                synced[i],
                self.walls@,
                self.walls@.len(),
            ).player_id == synced[i].player_id by {
                lemma_collide_keeps_id(synced[i], self.walls@, self.walls@.len());
            }
        }
        spell_collision_system(&mut self.actors, &self.projectiles, &self.spawn_points);
        assert(handles_ok(actors_view(self.actors@)));
        update_spell_lifetimes(&mut self.projectiles);
    }
}

impl World {
    /// Simulates `frames` one after another; each holds one packet per
    /// actor. This is also how a rollback re-simulates: restore the state
    /// saved before the first corrected frame and run the corrected frames.
    pub fn run_frames(&mut self, frames: &Vec<Vec<PlayerControls>>)
        requires
            old(self)@.wf(),
            frames_fit(frames_view(frames@), old(self)@.actors.len()),
        ensures
            final(self)@ == run_spec(old(self)@, frames_view(frames@)),
            final(self)@.wf(),
    {
        let ghost w = self@;
        let n = frames.len();
        for k in 0..n
            invariant
                n == frames@.len(),
                self@.wf(),
                self@.actors.len() == w.actors.len(),
                frames_fit(frames_view(frames@), w.actors.len()),
                self@ == run_spec(w, frames_view(frames@).subrange(0, k as int)),
        {
            let ghost prefix = frames_view(frames@).subrange(0, k + 1);
            assert(prefix.drop_last() =~= frames_view(frames@).subrange(0, k as int));
            assert(frames_view(frames@)[k as int].len() == w.actors.len());
            self.advance_frame(&frames[k]);
            proof {
                lemma_frame_keeps_len(run_spec(w, frames_view(frames@).subrange(0, k as int)), frames@[k as int]@);
            }
        }
        assert(frames_view(frames@).subrange(0, n as int) =~= frames_view(frames@));
    }
}

proof fn lemma_frame_keeps_len(w: WorldView, inputs: Seq<PlayerControls>)
    requires
        w.wf(),
    ensures
        frame_spec(w, inputs).actors.len() == w.actors.len(),
{
    let moved = move_stage(w.actors, inputs);
    lemma_cast_prefix_len(moved, inputs, w.projectiles, w.ids, w.fps, moved.len());
}

proof fn lemma_cast_prefix_len(
    s: Seq<ActorView>,
    inputs: Seq<PlayerControls>,
    projs: Seq<Projectile>,
    ids: NetworkIdProvider,
    fps: u32,
    k: nat,
)
    requires
        k <= s.len(),
    ensures
        cast_prefix(s, inputs, projs, ids, fps, k).0.len() == s.len(),
    decreases k,
{
    if k > 0 {
        lemma_cast_prefix_len(s, inputs, projs, ids, fps, (k - 1) as nat);
    }
}

/// Determinism: replaying the same frames from the same state gives the
/// same state, whichever peer does it and however often.
pub proof fn lemma_replay_deterministic(
    w1: WorldView,
    w2: WorldView,
    f1: Seq<Seq<PlayerControls>>,
    f2: Seq<Seq<PlayerControls>>,
)
    requires
        w1 == w2,
        f1 == f2,
    ensures
        run_spec(w1, f1) == run_spec(w2, f2),
{
}

/// Re-simulation from a saved state: running a history in two parts, the
/// second from the state the first left, equals running it whole. A
/// rollback that restores the state before a corrected frame and replays
/// from there therefore recomputes exactly that frame and every later one.
pub proof fn lemma_resimulate_from_snapshot(
    w: WorldView,
    before: Seq<Seq<PlayerControls>>,
    after: Seq<Seq<PlayerControls>>,
)
    ensures
        run_spec(run_spec(w, before), after) == run_spec(w, before + after),
    decreases after.len(),
{
    if after.len() == 0 {
        assert(before + after =~= before);
    } else {
        lemma_resimulate_from_snapshot(w, before, after.drop_last());
        assert((before + after).drop_last() =~= before + after.drop_last());
        assert((before + after).last() == after.last());
    }
}

proof fn lemma_cast_prefix_keeps_shape(
    s: Seq<ActorView>,
    inputs: Seq<PlayerControls>,
    projs: Seq<Projectile>,
    ids: NetworkIdProvider,
    fps: u32,
    k: nat,
)
    requires
        k <= s.len(),
    ensures
        cast_prefix(s, inputs, projs, ids, fps, k).0.len() == s.len(),
        forall|j: int| 0 <= j < s.len() ==> (#[trigger] cast_prefix(s, inputs, projs, ids, fps, k).0[j]).shape
            == s[j].shape,
        forall|j: int| 0 <= j < s.len() ==> (#[trigger] cast_prefix(s, inputs, projs, ids, fps, k).0[j]).player_id
            == s[j].player_id,
    decreases k,
{
    if k > 0 {
        lemma_cast_prefix_keeps_shape(s, inputs, projs, ids, fps, (k - 1) as nat);
    }
}

/// After a frame in which an actor's box, where the physics step found
/// it, overlaps no wall, the actor's correction-axis list is empty.
pub proof fn lemma_frame_without_wall_overlap(w: WorldView, inputs: Seq<PlayerControls>, i: int)
    requires
        w.wf(),
        0 <= i < w.actors.len(),
        forall|j: int|
            0 <= j < w.walls.len() ==> !boxes_overlap(
                #[trigger] sync_walls_stage(w.walls)[j].shape,
                physics_input(w, inputs)[i].shape,
            ),
    ensures
        frame_spec(w, inputs).actors[i].correction_axes.len() == 0,
{
    let moved = move_stage(w.actors, inputs);
    lemma_cast_prefix_keeps_shape(moved, inputs, w.projectiles, w.ids, w.fps, w.actors.len());
    let a = physics_input(w, inputs)[i];
    assert(actor_wf(w.actors[i]));
    assert(a.shape.wf());
    lemma_no_overlap_no_axes(a, sync_walls_stage(w.walls));
}

impl World {
    /// Whether the world is well formed: a positive tick rate, actors in
    /// handle order, and every coordinate within the world.
    pub fn is_valid(&self) -> (r: bool)
        ensures
            r == self@.wf(),
    {
        if self.fps == 0 {
            return false;
        }
        let n = self.actors.len();
        for i in 0..n
            invariant
                n == self.actors@.len(),
                forall|j: int| 0 <= j < i ==> (#[trigger] self@.actors[j]).player_id.handle == j && actor_wf(
                    self@.actors[j],
                ),
        {
            let a = &self.actors[i];
            assert(a@ == self@.actors[i as int]);
            let dash_ok = match a.movement_state.movement_state {
                MovementState::Dashing { direction, .. } => -UNIT <= direction.x && direction.x <= UNIT && -UNIT
                    <= direction.y && direction.y <= UNIT,
                _ => true,
            };
            let v = a.movement.velocity;
            let dashing = match a.movement_state.movement_state {
                MovementState::Dashing { .. } => true,
                _ => false,
            };
            let casting = match a.combat_state.spell_cast_state {
                SpellCastState::Cast => true,
                _ => false,
            };
            let ok = a.player_id.handle == i && (Aabb { position: a.transform, width: 0, height: 0 }).is_valid()
                && a.shape.is_valid() && dash_ok && (-UNIT <= v.x && v.x <= UNIT && -UNIT <= v.y && v.y <= UNIT)
                && !(dashing && a.movement_state.can_dash) && !casting;
            assert(ok == (a@.player_id.handle == i && actor_wf(a@)));
            if !ok {
                assert(!actors_wf(self@.actors) || !handles_ok(self@.actors));
                return false;
            }
        }
        let m = self.projectiles.len();
        for k in 0..m
            invariant
                m == self.projectiles@.len(),
                forall|j: int| 0 <= j < k ==> (#[trigger] self.projectiles@[j]).shape.wf(),
        {
            if !self.projectiles[k].shape.is_valid() {
                return false;
            }
        }
        let q = self.walls.len();
        for k in 0..q
            invariant
                q == self.walls@.len(),
                forall|j: int| 0 <= j < k ==> (#[trigger] self.walls@[j]).shape.wf() && self.walls@[j].transform.in_bounds(),
        {
            let wall = self.walls[k];
            if !wall.shape.is_valid() || !(Aabb { position: wall.transform, width: 0, height: 0 }).is_valid() {
                return false;
            }
        }
        if !is_sorted(&self.walls) || !is_sorted(&self.spawn_points) {
            return false;
        }
        let t = self.spawn_points.len();
        for k in 0..t
            invariant
                t == self.spawn_points@.len(),
                forall|j: int| 0 <= j < k ==> (#[trigger] self.spawn_points@[j]).position.in_bounds(),
        {
            if !(Aabb { position: self.spawn_points[k].position, width: 0, height: 0 }).is_valid() {
                return false;
            }
        }
        true
    }
}

/// The order in which level data was stored does not matter: two
/// well-formed worlds that agree on everything but the storage order of
/// their walls and spawn points are the same world, and so simulate the
/// same frames.
pub proof fn lemma_level_order_irrelevant(w1: WorldView, w2: WorldView, inputs: Seq<PlayerControls>)
    requires
        w1.wf(),
        w2.wf(),
        w1.actors == w2.actors,
        w1.projectiles == w2.projectiles,
        w1.ids == w2.ids,
        w1.fps == w2.fps,
        w1.walls.to_multiset() == w2.walls.to_multiset(),
        w1.spawn_points.to_multiset() == w2.spawn_points.to_multiset(),
    ensures
        w1 == w2,
        frame_spec(w1, inputs) == frame_spec(w2, inputs),
{
    crate::level::lemma_sorted_unique(w1.walls, w2.walls);
    crate::level::lemma_sorted_unique(w1.spawn_points, w2.spawn_points);
}

/// Identities of the projectiles a frame spawns: the projectiles already
/// there are kept in front; each new one takes the next identity, in
/// ascending handle order of the casters, and the counter ends at the last
/// identity issued. Two runs from the same counter and inputs therefore
/// issue the same identities to the same casters.
pub proof fn lemma_cast_ids(
    s: Seq<ActorView>,
    inputs: Seq<PlayerControls>,
    projs: Seq<Projectile>,
    ids: NetworkIdProvider,
    fps: u32,
    k: nat,
)
    requires
        k <= s.len(),
        handles_ok(s),
    ensures
        ({
            let r = cast_prefix(s, inputs, projs, ids, fps, k);
            &&& r.1.len() >= projs.len()
            &&& r.1.subrange(0, projs.len() as int) == projs
            &&& r.2.current_highest_id == ids.current_highest_id + (r.1.len() - projs.len())
            &&& forall|j: int|
                projs.len() <= j < r.1.len() ==> (#[trigger] r.1[j]).id.0 == ids.current_highest_id + (j
                    - projs.len()) + 1
            &&& forall|j: int| projs.len() <= j < r.1.len() ==> (#[trigger] r.1[j]).caster.id.handle < k
            &&& forall|i: int, j: int|
                projs.len() <= i < j < r.1.len() ==> (#[trigger] r.1[i]).caster.id.handle
                    < (#[trigger] r.1[j]).caster.id.handle
        }),
    decreases k,
{
    if k > 0 {
        lemma_cast_ids(s, inputs, projs, ids, fps, (k - 1) as nat);
        lemma_cast_prefix_keeps_shape(s, inputs, projs, ids, fps, (k - 1) as nat);
        let prev = cast_prefix(s, inputs, projs, ids, fps, (k - 1) as nat);
        let r = cast_prefix(s, inputs, projs, ids, fps, k);
        assert(prev.0[k - 1].player_id.handle == k - 1);
        if r.1.len() > prev.1.len() {
            assert(r.1 == prev.1.push(r.1.last()));
            assert(r.1.subrange(0, projs.len() as int) =~= prev.1.subrange(0, projs.len() as int));
        } else {
            assert(r.1 == prev.1);
        }
    }
}

/// A projectile after one lifetime tick.
pub open spec fn ticked(p: Projectile) -> Projectile {
    Projectile { lifetime: lifetime_tick(p.lifetime), ..p }
}

/// Whether a projectile still exists after its tick.
pub open spec fn still_alive() -> spec_fn(Projectile) -> bool {
    |p: Projectile| lifetime_alive(p.lifetime)
}

/// The lifetime stage ticks every projectile and keeps, in order, exactly
/// those still alive after their tick: one in `Cast` whose frame counter
/// stays below its explosion threshold survives, one that reaches it is
/// removed in that very tick.
pub proof fn lemma_lifetime_stage_filters(ps: Seq<Projectile>)
    ensures
        lifetime_stage(ps) == ps.map_values(|p: Projectile| ticked(p)).filter(still_alive()),
    decreases ps.len(),
{
    let m = ps.map_values(|p: Projectile| ticked(p));
    if ps.len() > 0 {
        lemma_lifetime_stage_filters(ps.drop_last());
        assert(m.drop_last() =~= ps.drop_last().map_values(|p: Projectile| ticked(p)));
        assert(m.last() == ticked(ps.last()));
        assert(m =~= m.drop_last().push(m.last()));
        m.drop_last().lemma_filter_push(m.last(), still_alive());
    } else {
        assert(m =~= Seq::<Projectile>::empty());
        reveal(Seq::filter);
    }
}

} // verus!
