//! Level data: deterministic ordering of walls and spawn points, and the
//! actors a round starts with.
use vstd::prelude::*;
use crate::geometry::{Vec2, UNIT};
use crate::shapes::Aabb;
use crate::player::{PlayerId, TeamId, Health, Movement, PlayerMovementState, PlayerMovementStats, AnimationState};
use crate::spell::{PlayerCombatState, PlayerSpells, SpellCastInfo, SpellType, SpellId};
use crate::world::{
    Actor, ActorView, Wall, SpawnPoint, World, NetworkIdProvider, actors_view, actor_wf, actors_wf, handles_ok,
    walls_wf, spawn_points_wf,
};
use crate::session::SessionError;

verus! {

broadcast use vstd::seq_lib::group_to_multiset_ensures;

/// A total preorder used to put level data in a fixed order.
pub trait SortKey: Sized + Copy {
    spec fn key_le(self, other: Self) -> bool;

    proof fn lemma_key_total(a: Self, b: Self)
        ensures
            a.key_le(b) || b.key_le(a);

    proof fn lemma_key_trans(a: Self, b: Self, c: Self)
        requires
            a.key_le(b),
            b.key_le(c),
        ensures
            a.key_le(c);

    proof fn lemma_key_antisym(a: Self, b: Self)
        requires
            a.key_le(b),
            b.key_le(a),
        ensures
            a == b;

    fn le(&self, other: &Self) -> (r: bool)
        ensures
            r == self.key_le(*other);
}

pub open spec fn sorted_by_key<T: SortKey>(s: Seq<T>) -> bool {
    forall|a: int, b: int| 0 <= a < b < s.len() ==> (#[trigger] s[a]).key_le(#[trigger] s[b])
}

/// Spawn points are ordered by team, then position: every field counts.
impl SortKey for SpawnPoint {
    open spec fn key_le(self, other: Self) -> bool {
        ||| self.team.id < other.team.id
        ||| self.team.id == other.team.id && self.position.x < other.position.x
        ||| self.team.id == other.team.id && self.position.x == other.position.x && self.position.y
            <= other.position.y
    }

    proof fn lemma_key_total(a: Self, b: Self) {
    }

    proof fn lemma_key_trans(a: Self, b: Self, c: Self) {
    }

    proof fn lemma_key_antisym(a: Self, b: Self) {
    }

    fn le(&self, other: &Self) -> (r: bool) {
        if self.team.id != other.team.id {
            self.team.id < other.team.id
        } else if self.position.x != other.position.x {
            self.position.x < other.position.x
        } else {
            self.position.y <= other.position.y
        }
    }
}

/// Walls are ordered by position, then extent, then the position of their
/// box: every field counts.
impl SortKey for Wall {
    open spec fn key_le(self, other: Self) -> bool {
        wall_key_le(
            seq![
                self.transform.x as int,
                self.transform.y as int,
                self.shape.width as int,
                self.shape.height as int,
                self.shape.position.x as int,
                self.shape.position.y as int,
            ],
            seq![
                other.transform.x as int,
                other.transform.y as int,
                other.shape.width as int,
                other.shape.height as int,
                other.shape.position.x as int,
                other.shape.position.y as int,
            ],
        )
    }

    proof fn lemma_key_total(a: Self, b: Self) {
    }

    proof fn lemma_key_trans(a: Self, b: Self, c: Self) {
    }

    proof fn lemma_key_antisym(a: Self, b: Self) {
    }

    fn le(&self, other: &Self) -> (r: bool) {
        if self.transform.x != other.transform.x {
            self.transform.x < other.transform.x
        } else if self.transform.y != other.transform.y {
            self.transform.y < other.transform.y
        } else if self.shape.width != other.shape.width {
            self.shape.width < other.shape.width
        } else if self.shape.height != other.shape.height {
            self.shape.height < other.shape.height
        } else if self.shape.position.x != other.shape.position.x {
            self.shape.position.x < other.shape.position.x
        } else {
            self.shape.position.y <= other.shape.position.y
        }
    }
}

/// Lexicographic order on six integers.
pub open spec fn wall_key_le(a: Seq<int>, b: Seq<int>) -> bool {
    ||| a[0] < b[0]
    ||| a[0] == b[0] && a[1] < b[1]
    ||| a[0] == b[0] && a[1] == b[1] && a[2] < b[2]
    ||| a[0] == b[0] && a[1] == b[1] && a[2] == b[2] && a[3] < b[3]
    ||| a[0] == b[0] && a[1] == b[1] && a[2] == b[2] && a[3] == b[3] && a[4] < b[4]
    ||| a[0] == b[0] && a[1] == b[1] && a[2] == b[2] && a[3] == b[3] && a[4] == b[4] && a[5] <= b[5]
}

/// Level data in its fixed order does not depend on the order it was
/// loaded in: two sorted sequences holding the same items are equal.
pub proof fn lemma_sorted_unique<T: SortKey>(s1: Seq<T>, s2: Seq<T>)
    requires
        sorted_by_key(s1),
        sorted_by_key(s2),
        s1.to_multiset() == s2.to_multiset(),
    ensures
        s1 == s2,
    decreases s1.len(),
{
    broadcast use vstd::multiset::group_multiset_properties;

    if s1.len() == 0 {
        assert(s2.len() == 0) by {
            assert(s2.to_multiset().len() == 0);
        }
        assert(s1 =~= s2);
    } else {
        assert(s2.len() == s1.len()) by {
            vstd::seq_lib::to_multiset_len(s1);
            vstd::seq_lib::to_multiset_len(s2);
        }
        let x = s1[0];
        let y = s2[0];
        assert(s1.contains(x));
        assert(s2.to_multiset().count(x) > 0);
        assert(s2.contains(x));
        let j = choose|j: int| 0 <= j < s2.len() && s2[j] == x;
        if j > 0 {
            assert(y.key_le(s2[j]));
        } else {
            T::lemma_key_total(y, x);
        }
        assert(s2.contains(y));
        assert(s1.to_multiset().count(y) > 0);
        assert(s1.contains(y));
        let k = choose|k: int| 0 <= k < s1.len() && s1[k] == y;
        if k > 0 {
            assert(x.key_le(s1[k]));
        } else {
            T::lemma_key_total(x, y);
        }
        T::lemma_key_antisym(x, y);
        let t1 = s1.drop_first();
        let t2 = s2.drop_first();
        vstd::seq_lib::to_multiset_remove(s1, 0);
        vstd::seq_lib::to_multiset_remove(s2, 0);
        assert(s1.remove(0) =~= t1);
        assert(s2.remove(0) =~= t2);
        assert(sorted_by_key(t1)) by {
            assert forall|a: int, b: int| 0 <= a < b < t1.len() implies (#[trigger] t1[a]).key_le(#[trigger] t1[b]) by {
                assert(s1[a + 1].key_le(s1[b + 1]));
            }
        }
        assert(sorted_by_key(t2)) by {
            assert forall|a: int, b: int| 0 <= a < b < t2.len() implies (#[trigger] t2[a]).key_le(#[trigger] t2[b]) by {
                assert(s2[a + 1].key_le(s2[b + 1]));
            }
        }
        lemma_sorted_unique(t1, t2);
        assert(s1 =~= s2) by {
            assert forall|i: int| 0 <= i < s1.len() implies s1[i] == s2[i] by {
                if i > 0 {
                    assert(t1[i - 1] == t2[i - 1]);
                }
            }
        }
    }
}

/// Whether `v` is sorted by its key.
pub fn is_sorted<T: SortKey>(v: &Vec<T>) -> (r: bool)
    ensures
        r == sorted_by_key(v@),
{
    let n = v.len();
    if n == 0 {
        return true;
    }
    let mut k: usize = 1;
    while k < n
        invariant
            1 <= k <= n,
            n == v@.len(),
            forall|a: int, b: int| 0 <= a < b < k ==> (#[trigger] v@[a]).key_le(#[trigger] v@[b]),
        decreases n - k,
    {
        if !v[k - 1].le(&v[k]) {
            return false;
        }
        proof {
            assert forall|a: int, b: int| 0 <= a < b < k + 1 implies (#[trigger] v@[a]).key_le(#[trigger] v@[b]) by {
                if b == k && a < k - 1 {
                    T::lemma_key_trans(v@[a], v@[k - 1], v@[b]);
                }
            }
        }
        k = k + 1;
    }
    true
}

/// Sorts `v` by its key; the result holds the same items.
pub fn sort_by_key<T: SortKey>(v: &mut Vec<T>)
    ensures
        sorted_by_key(final(v)@),
        final(v)@.to_multiset() == old(v)@.to_multiset(),
{
    let n = v.len();
    if n == 0 {
        return;
    }
    let mut i: usize = 1;
    while i < n
        invariant
            1 <= i <= n,
            n == v@.len(),
            sorted_by_key(v@.subrange(0, i as int)),
            v@.to_multiset() == old(v)@.to_multiset(),
        decreases n - i,
    {
        let mut j: usize = i;
        assert forall|a: int, b: int| 0 <= a < b < j implies (#[trigger] v@[a]).key_le(#[trigger] v@[b]) by {
            assert(v@.subrange(0, i as int)[a] == v@[a]);
            assert(v@.subrange(0, i as int)[b] == v@[b]);
        }
        while j > 0 && !v[j - 1].le(&v[j])
            invariant
                0 <= j <= i < n,
                n == v@.len(),
                forall|a: int, b: int| 0 <= a < b < j ==> (#[trigger] v@[a]).key_le(#[trigger] v@[b]),
                forall|a: int, b: int| j <= a < b <= i ==> (#[trigger] v@[a]).key_le(#[trigger] v@[b]),
                forall|a: int, b: int| 0 <= a < j && j < b <= i ==> (#[trigger] v@[a]).key_le(#[trigger] v@[b]),
                v@.to_multiset() == old(v)@.to_multiset(),
            decreases j,
        {
            let x = v[j - 1];
            let y = v[j];
            proof {
                T::lemma_key_total(x, y);
            }
            let ghost s = v@;
            v.set(j - 1, y);
            v.set(j, x);
            proof {
                assert(v@ == s.update(j - 1, y).update(j as int, x));
                assert(v@.to_multiset() =~= s.to_multiset()) by {
                    broadcast use vstd::multiset::group_multiset_properties;
                    vstd::seq_lib::to_multiset_update(s, j - 1, y);
                    vstd::seq_lib::to_multiset_update(s.update(j - 1, y), j as int, x);
                }
                assert forall|a: int, b: int| (j - 1) <= a < b <= i implies (#[trigger] v@[a]).key_le(#[trigger] v@[b]) by {
                    if a == j - 1 && b > j {
                        T::lemma_key_trans(y, x, s[b]);
                    }
                }
                assert forall|a: int, b: int| 0 <= a < (j - 1) && (j - 1) < b <= i implies (#[trigger] v@[a]).key_le(
                    #[trigger] v@[b],
                ) by {
                    if b == j {
                        assert(s[a].key_le(s[j - 1]));
                    } else if b == j - 1 {
                    } else {
                    }
                }
            }
            j = j - 1;
        }
        proof {
            assert forall|a: int, b: int| 0 <= a < b < i + 1 implies (#[trigger] v@.subrange(0, i + 1)[a]).key_le(
                #[trigger] v@.subrange(0, i + 1)[b],
            ) by {
                if a < j && b > j {
                    assert(v@[a].key_le(v@[b]));
                } else if a < j && b == j {
                    if j > 0 {
                        if a < j - 1 {
                            T::lemma_key_trans(v@[a], v@[j - 1], v@[j as int]);
                        }
                    }
                }
            }
        }
        i = i + 1;
    }
    assert(v@.subrange(0, n as int) =~= v@);
}

/// Side of a wall tile (16 world units).
pub const WALL_TILE_SIZE: i64 = 16 * UNIT;
/// Width and height of an actor's collision box (5 by 16 world units).
pub const ACTOR_WIDTH: i64 = 5 * UNIT;
pub const ACTOR_HEIGHT: i64 = 16 * UNIT;
/// Hit points an actor starts with.
pub const START_HEALTH: u32 = 100;

/// The team a level spawn point belongs to: `Team0` is team 0, anything
/// else team 1.
pub fn team_from_field_type(field_type: &String) -> (r: TeamId)
    ensures
        r.id == (if field_type@ == "Team0"@ { 0usize } else { 1usize }),
{
    let team0 = String::from_str("Team0");
    if *field_type == team0 {
        TeamId { id: 0 }
    } else {
        TeamId { id: 1 }
    }
}

/// A wall tile of the level at `position`.
pub fn wall_tile(position: Vec2) -> (r: Wall)
    ensures
        r == (Wall {
            transform: position,
            shape: Aabb { position, width: WALL_TILE_SIZE, height: WALL_TILE_SIZE },
        }),
{
    Wall { transform: position, shape: Aabb { position, width: WALL_TILE_SIZE, height: WALL_TILE_SIZE } }
}

/// Movement tuning of every actor: 160 units per second, triple speed for
/// 0.15 s when dashing, a dash every 5 s (at `FPS` ticks per second).
pub open spec fn default_stats() -> PlayerMovementStats {
    PlayerMovementStats { speed: 160, dash_power: 3, dash_duration: 9, dash_cooldown_length: 300 }
}

/// The ability every actor starts with.
pub open spec fn basic_spell() -> SpellCastInfo {
    SpellCastInfo { spell_type: SpellType::SelfCast, cooldown: 0, spell_id: SpellId { id: 0 } }
}

/// Actor `handle` as a round starts, at `position`: teams alternate by
/// handle.
pub open spec fn new_actor_spec(handle: usize, position: Vec2) -> ActorView {
    ActorView {
        player_id: PlayerId { handle },
        team_id: TeamId { id: handle % 2 },
        transform: position,
        movement: Movement { velocity: Vec2 { x: 0, y: 0 } },
        stats: default_stats(),
        movement_state: PlayerMovementState { can_dash: true, dash_cooldown: 0, movement_state: crate::player::MovementState::Idle },
        health: Health { max_health: START_HEALTH, current_health: START_HEALTH },
        shape: Aabb { position, width: ACTOR_WIDTH, height: ACTOR_HEIGHT },
        correction_axes: Seq::empty(),
        combat_state: PlayerCombatState { spell_cast_state: crate::spell::SpellCastState::Inactive },
        autoattack: basic_spell(),
        spells: seq![basic_spell()],
        animation_state: AnimationState::Idle,
    }
}

/// Creates actor `handle` at `position`.
pub fn new_actor(handle: usize, position: Vec2) -> (r: Actor)
    ensures
        r@ == new_actor_spec(handle, position),
{
    let spell = SpellCastInfo { spell_type: SpellType::SelfCast, cooldown: 0, spell_id: SpellId { id: 0 } };
    let mut spells: Vec<SpellCastInfo> = Vec::new();
    spells.push(spell);
    let r = Actor {
        player_id: PlayerId { handle },
        team_id: TeamId { id: handle % 2 },
        transform: position,
        movement: Movement::new(),
        stats: PlayerMovementStats { speed: 160, dash_power: 3, dash_duration: 9, dash_cooldown_length: 300 },
        movement_state: PlayerMovementState::new(),
        health: Health { max_health: START_HEALTH, current_health: START_HEALTH },
        shape: Aabb { position, width: ACTOR_WIDTH, height: ACTOR_HEIGHT },
        correction_axes: Vec::new(),
        combat_state: PlayerCombatState::new(),
        spells: PlayerSpells { autoattack: spell, spells },
        animation_state: AnimationState::Idle,
    };
    assert(r@ =~= new_actor_spec(handle, position));
    r
}

/// The actors of a new round: one per player, actor `i` at the `i`-th spawn
/// point. There must be a spawn point for every player.
pub fn spawn_players(player_count: u32, spawn_points: &Vec<SpawnPoint>) -> (r: Result<Vec<Actor>, SessionError>)
    ensures
        r is Err <==> player_count > spawn_points@.len(),
        r is Err ==> r == Err::<Vec<Actor>, SessionError>(SessionError::ConfigurationError),
        r matches Ok(v) ==> v@.len() == player_count && forall|i: int|
            0 <= i < player_count ==> (#[trigger] v@[i])@ == new_actor_spec(i as usize, spawn_points@[i].position),
{
    if player_count as usize > spawn_points.len() {
        return Err(SessionError::ConfigurationError);
    }
    let mut actors: Vec<Actor> = Vec::new();
    let n = player_count as usize;
    for i in 0..n
        invariant
            n == player_count,
            n <= spawn_points@.len(),
            actors@.len() == i,
            forall|j: int| 0 <= j < i ==> (#[trigger] actors@[j])@ == new_actor_spec(j as usize, spawn_points@[j].position),
    {
        let a = new_actor(i, spawn_points[i].position);
        actors.push(a);
    }
    Ok(actors)
}

fn walls_valid(walls: &Vec<Wall>) -> (r: bool)
    ensures
        r == walls_wf(walls@),
{
    let n = walls.len();
    for k in 0..n
        invariant
            n == walls@.len(),
            forall|j: int| 0 <= j < k ==> (#[trigger] walls@[j]).shape.wf() && walls@[j].transform.in_bounds(),
    {
        let w = walls[k];
        if !w.shape.is_valid() || !(Aabb { position: w.transform, width: 0, height: 0 }).is_valid() {
            return false;
        }
    }
    true
}

fn spawn_points_valid(points: &Vec<SpawnPoint>) -> (r: bool)
    ensures
        r == spawn_points_wf(points@),
{
    let n = points.len();
    for k in 0..n
        invariant
            n == points@.len(),
            forall|j: int| 0 <= j < k ==> (#[trigger] points@[j]).position.in_bounds(),
    {
        let p = points[k];
        if !(Aabb { position: p.position, width: 0, height: 0 }).is_valid() {
            return false;
        }
    }
    true
}

/// Sets up a round from the level's walls and spawn points, in whatever
/// order they were loaded: both are put in their fixed order first, then
/// actor `i` is placed at the `i`-th spawn point. Fails with a
/// configuration error on a zero frame rate, more players than spawn
/// points, or level geometry outside the world.
pub fn start_round(player_count: u32, walls: Vec<Wall>, spawn_points: Vec<SpawnPoint>, fps: u32) -> (r: Result<
    World,
    SessionError,
>)
    ensures
        r is Err <==> (fps == 0 || player_count > spawn_points@.len() || !walls_wf(walls@) || !spawn_points_wf(
            spawn_points@,
        )),
        r is Err ==> r == Err::<World, SessionError>(SessionError::ConfigurationError),
        r matches Ok(w) ==> {
            &&& w@.wf()
            &&& w@.fps == fps
            &&& w@.projectiles.len() == 0
            &&& w@.ids == NetworkIdProvider { current_highest_id: 0 }
            &&& sorted_by_key(w@.walls) && w@.walls.to_multiset() == walls@.to_multiset()
            &&& sorted_by_key(w@.spawn_points) && w@.spawn_points.to_multiset() == spawn_points@.to_multiset()
            &&& w@.actors.len() == player_count
            &&& forall|i: int| 0 <= i < player_count ==> #[trigger] w@.actors[i] == new_actor_spec(
                i as usize,
                w@.spawn_points[i].position,
            )
        },
{
    let mut walls = walls;
    let mut spawn_points = spawn_points;
    if fps == 0 || !walls_valid(&walls) || !spawn_points_valid(&spawn_points) {
        return Err(SessionError::ConfigurationError);
    }
    let ghost loaded = spawn_points@;
    let ghost loaded_walls = walls@;
    sort_by_key(&mut spawn_points);
    sort_by_key(&mut walls);
    proof {
        lemma_wf_of_permutation(loaded, spawn_points@);
        lemma_walls_wf_of_permutation(loaded_walls, walls@);
        assert(spawn_points@.len() == loaded.len()) by {
            assert(spawn_points@.to_multiset().len() == loaded.to_multiset().len());
        }
    }
    let actors = match spawn_players(player_count, &spawn_points) {
        Ok(a) => a,
        Err(e) => {
            return Err(e);
        },
    };
    let w = World {
        actors,
        projectiles: Vec::new(),
        walls,
        spawn_points,
        ids: NetworkIdProvider { current_highest_id: 0 },
        fps,
    };
    proof {
        assert forall|i: int| 0 <= i < w@.actors.len() implies #[trigger] actor_wf(w@.actors[i]) by {
            assert(w.actors@[i]@ == w@.actors[i]);
            assert(w.spawn_points@[i].position.in_bounds());
        }
        assert forall|i: int| 0 <= i < w@.actors.len() implies (#[trigger] w@.actors[i]).player_id.handle == i by {
            assert(w.actors@[i]@ == w@.actors[i]);
        }
        assert forall|i: int| 0 <= i < player_count implies #[trigger] w@.actors[i] == new_actor_spec(
            i as usize,
            w@.spawn_points[i].position,
        ) by {
            assert(w.actors@[i]@ == w@.actors[i]);
        }
    }
    Ok(w)
}

proof fn lemma_wf_of_permutation(a: Seq<SpawnPoint>, b: Seq<SpawnPoint>)
    requires
        spawn_points_wf(a),
        a.to_multiset() == b.to_multiset(),
    ensures
        spawn_points_wf(b),
{
    assert forall|j: int| 0 <= j < b.len() implies (#[trigger] b[j]).position.in_bounds() by {
        assert(b.to_multiset().count(b[j]) > 0);
        assert(a.contains(b[j]));
    }
}

proof fn lemma_walls_wf_of_permutation(a: Seq<Wall>, b: Seq<Wall>)
    requires
        walls_wf(a),
        a.to_multiset() == b.to_multiset(),
    ensures
        walls_wf(b),
{
    assert forall|j: int| 0 <= j < b.len() implies (#[trigger] b[j]).shape.wf() && b[j].transform.in_bounds() by {
        assert(b.to_multiset().count(b[j]) > 0);
        assert(a.contains(b[j]));
    }
}

} // verus!
