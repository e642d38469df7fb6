//! Abilities, the per-actor cast pipeline and projectile lifetimes.
use vstd::prelude::*;
use crate::geometry::Vec2;
use crate::player::PlayerId;

verus! {

/// Identifies an ability.
#[derive(Clone, Copy, PartialEq, Eq, Debug, Hash, PartialOrd, Ord, Structural)]
pub struct SpellId {
    pub id: u32,
}

/// The actor that cast a projectile.
#[derive(Clone, Copy, PartialEq, Eq, Debug, Hash, PartialOrd, Ord, Structural)]
pub struct SpellCasterId {
    pub id: PlayerId,
}

/// Damage a projectile carries.
#[derive(Clone, Copy, PartialEq, Eq, Debug, Structural)]
pub struct DamageDealer {
    pub damage_amount: u32,
}

/// Lifetime phase of a projectile; presentation plays the matching
/// animation.
#[derive(Clone, Copy, PartialEq, Eq, Debug, Structural)]
pub enum SpellAnimation {
    Indicator,
    CastDelay,
    Cast,
    PostCast,
}

/// How an ability is aimed.
#[derive(Clone, Copy, PartialEq, Eq, Debug, Structural)]
pub enum SpellType {
    SelfCast,
    Directional(Vec2),
    Location(Vec2),
    Targeted(PlayerId),
}

/// How an ability is cast; `cooldown` is in ticks.
#[derive(Clone, Copy, PartialEq, Eq, Debug, Structural)]
pub struct SpellCastInfo {
    pub spell_type: SpellType,
    pub cooldown: u32,
    pub spell_id: SpellId,
}

/// The abilities an actor can cast.
#[derive(Clone, Debug)]
pub struct PlayerSpells {
    pub autoattack: SpellCastInfo,
    pub spells: Vec<SpellCastInfo>,
}

/// The cast pipeline of one actor: `Inactive → Precast(ability) → Cast → Inactive`,
/// with a cancel from `Precast` back to `Inactive`.
#[derive(Clone, Copy, PartialEq, Eq, Debug, Structural)]
pub enum SpellCastState {
    Inactive,
    Precast { spell_id: SpellCastInfo },
    Cast,
}

#[derive(Clone, Copy, PartialEq, Eq, Debug, Structural)]
pub struct PlayerCombatState {
    pub spell_cast_state: SpellCastState,
}

/// What the actor does to its cast pipeline.
#[derive(Clone, Copy, PartialEq, Eq, Debug, Structural)]
pub enum CastAction {
    Select(SpellCastInfo),
    Trigger,
    Cancel,
}

/// Lifetime of a projectile. Delays and frames are counted in ticks: the
/// projectile waits `max_cast_delay` ticks in `CastDelay`, then plays its
/// explosion in `Cast` for `max_explosion_frame` animation frames, one per
/// tick, and is gone.
#[derive(Clone, Copy, PartialEq, Eq, Debug, Structural)]
pub struct SpellLifetime {
    pub max_cast_delay: u32,
    pub current_cast_delay: u32,
    pub max_cast_frame: u32,
    pub max_explosion_frame: u32,
    pub phase: SpellAnimation,
    pub current_frame: u32,
}

/// What presentation should do with the local actor's aiming indicator.
#[derive(Clone, Copy, PartialEq, Eq, Debug, Structural)]
pub enum PreviewAction {
    Nothing,
    Despawn,
    MoveTo(Vec2),
    SpawnAt(Vec2),
}

impl PlayerCombatState {
    pub fn new() -> (r: PlayerCombatState)
        ensures
            r.spell_cast_state == SpellCastState::Inactive,
    {
        PlayerCombatState { spell_cast_state: SpellCastState::Inactive }
    }
}

/// One transition of the cast pipeline. `Cast` lasts no longer than the
/// transition that produced it: whatever comes next resets it to `Inactive`.
pub open spec fn cast_step(s: SpellCastState, a: CastAction) -> SpellCastState {
    match s {
        SpellCastState::Cast => SpellCastState::Inactive,
        _ => match a {
            CastAction::Select(info) => SpellCastState::Precast { spell_id: info },
            CastAction::Trigger => if s is Precast {
                SpellCastState::Cast
            } else {
                SpellCastState::Inactive
            },
            CastAction::Cancel => SpellCastState::Inactive,
        },
    }
}

/// Applies one action to a cast pipeline.
pub fn next_cast_state(s: &SpellCastState, a: &CastAction) -> (r: SpellCastState)
    ensures
        r == cast_step(*s, *a),
{
    match s {
        SpellCastState::Cast => SpellCastState::Inactive,
        _ => match a {
            CastAction::Select(info) => SpellCastState::Precast { spell_id: *info },
            CastAction::Trigger => match s {
                SpellCastState::Precast { .. } => SpellCastState::Cast,
                _ => SpellCastState::Inactive,
            },
            CastAction::Cancel => SpellCastState::Inactive,
        },
    }
}

/// The cast pipeline is linear: `Cast` is entered only from `Precast`, by a
/// trigger, and `Cast` always resets to `Inactive` on the next transition.
pub proof fn lemma_cast_only_from_precast(s: SpellCastState, a: CastAction)
    ensures
        cast_step(s, a) is Cast ==> (s is Precast && a is Trigger),
        s is Cast ==> cast_step(s, a) is Inactive,
{
}

/// A projectile still exists after a tick that left it in `lt`.
pub open spec fn lifetime_alive(lt: SpellLifetime) -> bool {
    !(lt.phase is Cast && lt.current_frame >= lt.max_explosion_frame)
}

/// One tick of a projectile's lifetime: the elapsed delay grows (it never
/// decreases), a projectile in `CastDelay` whose delay has run out enters
/// `Cast` at animation frame 0, and one already in `Cast` advances one
/// animation frame.
pub open spec fn lifetime_tick(lt: SpellLifetime) -> SpellLifetime {
    let elapsed: u32 = if lt.current_cast_delay < u32::MAX {
        (lt.current_cast_delay + 1) as u32
    } else {
        lt.current_cast_delay
    };
    if lt.phase is CastDelay && elapsed >= lt.max_cast_delay {
        SpellLifetime { current_cast_delay: elapsed, phase: SpellAnimation::Cast, current_frame: 0, ..lt }
    } else if lt.phase is Cast {
        let frame: u32 = if lt.current_frame < u32::MAX {
            (lt.current_frame + 1) as u32
        } else {
            lt.current_frame
        };
        SpellLifetime { current_cast_delay: elapsed, current_frame: frame, ..lt }
    } else {
        SpellLifetime { current_cast_delay: elapsed, ..lt }
    }
}

/// `k` consecutive lifetime ticks.
pub open spec fn lifetime_ticks(lt: SpellLifetime, k: nat) -> SpellLifetime
    decreases k,
{
    if k == 0 {
        lt
    } else {
        lifetime_tick(lifetime_ticks(lt, (k - 1) as nat))
    }
}

impl SpellLifetime {
    /// A fresh lifetime in `CastDelay`.
    pub fn new(max_cast_delay: u32, max_cast_frame: u32, max_explosion_frame: u32) -> (r: SpellLifetime)
        ensures
            r == (SpellLifetime {
                max_cast_delay,
                current_cast_delay: 0,
                max_cast_frame,
                max_explosion_frame,
                phase: SpellAnimation::CastDelay,
                current_frame: 0,
            }),
    {
        SpellLifetime {
            max_cast_delay,
            current_cast_delay: 0,
            max_cast_frame,
            max_explosion_frame,
            phase: SpellAnimation::CastDelay,
            current_frame: 0,
        }
    }

    /// Whether the projectile can deal damage.
    pub fn is_live(&self) -> (r: bool)
        ensures
            r == (self.phase is Cast),
    {
        match self.phase {
            SpellAnimation::Cast => true,
            _ => false,
        }
    }

    /// Advances the lifetime by one tick; returns whether the projectile
    /// still exists afterwards.
    pub fn tick(&mut self) -> (alive: bool)
        ensures
            *final(self) == lifetime_tick(*old(self)),
            alive == lifetime_alive(*final(self)),
            final(self).current_cast_delay >= old(self).current_cast_delay,
    {
        let elapsed = if self.current_cast_delay < u32::MAX {
            self.current_cast_delay + 1
        } else {
            self.current_cast_delay
        };
        self.current_cast_delay = elapsed;
        match self.phase {
            SpellAnimation::CastDelay => {
                if elapsed >= self.max_cast_delay {
                    self.phase = SpellAnimation::Cast;
                    self.current_frame = 0;
                }
            },
            SpellAnimation::Cast => {
                if self.current_frame < u32::MAX {
                    self.current_frame = self.current_frame + 1;
                }
            },
            _ => {},
        }
        match self.phase {
            SpellAnimation::Cast => self.current_frame < self.max_explosion_frame,
            _ => true,
        }
    }
}

proof fn lemma_cast_frames(lt: SpellLifetime, k: nat)
    requires
        lt.phase is Cast,
        lt.current_frame == 0,
        k <= lt.max_explosion_frame,
        lt.max_explosion_frame < u32::MAX,
    ensures
        lifetime_ticks(lt, k).phase is Cast,
        lifetime_ticks(lt, k).current_frame == k,
        lifetime_ticks(lt, k).max_explosion_frame == lt.max_explosion_frame,
    decreases k,
{
    if k > 0 {
        lemma_cast_frames(lt, (k - 1) as nat);
    }
}

/// A projectile that has just entered `Cast` (the tick that put it there
/// left it at animation frame 0) survives each of the next
/// `max_explosion_frame - 1` ticks and is gone after exactly
/// `max_explosion_frame` of them; with a threshold of 0 it is gone at once.
pub proof fn lemma_cast_phase_despawn(lt: SpellLifetime)
    requires
        lt.phase is Cast,
        lt.current_frame == 0,
        lt.max_explosion_frame < u32::MAX,
    ensures
        forall|k: nat| k < lt.max_explosion_frame ==> #[trigger] lifetime_alive(lifetime_ticks(lt, k)),
        !lifetime_alive(lifetime_ticks(lt, lt.max_explosion_frame as nat)),
{
    assert forall|k: nat| k < lt.max_explosion_frame implies #[trigger] lifetime_alive(lifetime_ticks(lt, k)) by {
        lemma_cast_frames(lt, k);
    }
    lemma_cast_frames(lt, lt.max_explosion_frame as nat);
}

/// The aiming indicator follows the cursor while an ability is selected and
/// is removed otherwise.
pub open spec fn preview_spec(s: SpellCastState, has_preview: bool, cursor: Vec2) -> PreviewAction {
    match s {
        SpellCastState::Precast { .. } => if has_preview {
            PreviewAction::MoveTo(cursor)
        } else {
            PreviewAction::SpawnAt(cursor)
        },
        _ => if has_preview {
            PreviewAction::Despawn
        } else {
            PreviewAction::Nothing
        },
    }
}

/// Decides what happens to the local actor's aiming indicator this frame.
pub fn show_spell_preview(s: &SpellCastState, has_preview: bool, cursor: Vec2) -> (r: PreviewAction)
    ensures
        r == preview_spec(*s, has_preview, cursor),
{
    match s {
        SpellCastState::Precast { .. } => if has_preview {
            PreviewAction::MoveTo(cursor)
        } else {
            PreviewAction::SpawnAt(cursor)
        },
        _ => if has_preview {
            PreviewAction::Despawn
        } else {
            PreviewAction::Nothing
        },
    }
}

} // verus!
