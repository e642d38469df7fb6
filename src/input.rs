//! The per-frame input packet and the local input sampler.
//!
//! A packet has a fixed 40-byte little-endian layout, so it can be stored in
//! the rollback engine's input history and sent to peers as is:
//! move direction x, y (8 bytes each, two's complement), action bits
//! (4 bytes), selected ability (4 bytes), cursor x, y (8 bytes each).
use vstd::prelude::*;
use crate::geometry::Vec2;
use crate::player::{PlayerMovementState, MovementState};
use crate::spell::{PlayerSpells, SpellCastState, SpellCastInfo, CastAction, cast_step, next_cast_state};

verus! {

/// The player auto-attacked.
pub const AUTOATTACK: u32 = 1;
/// The player dashed along its move direction.
pub const DASH: u32 = 2;
/// The player shields toward the cursor.
pub const SHIELD: u32 = 4;
/// The player cast its selected ability at the cursor.
pub const CAST_SPELL: u32 = 8;
/// The player selected the ability `cast_spell_type`.
pub const SELECT_SPELL: u32 = 16;
/// The player dropped its selected ability.
pub const CANCEL_SPELL: u32 = 32;

/// Size of an encoded packet in bytes.
pub const PACKET_SIZE: usize = 40;

/// One actor's intent for one frame.
#[derive(Clone, Copy, PartialEq, Eq, Debug, Structural)]
pub struct PlayerControls {
    /// Requested direction: the unnormalized sum of the pressed directions.
    pub move_direction: Vec2,
    /// Action bits: `AUTOATTACK`, `DASH`, `SHIELD`, `CAST_SPELL`,
    /// `SELECT_SPELL`, `CANCEL_SPELL`.
    pub action_vars: u32,
    /// The ability id, meaningful only when `SELECT_SPELL` or `CAST_SPELL`
    /// is set.
    pub cast_spell_type: u32,
    /// Cursor position in world coordinates.
    pub mouse_position: Vec2,
}

/// The actions a packet can carry besides movement.
#[derive(Clone, Copy, PartialEq, Eq, Debug, Structural)]
pub enum PlayerActions {
    Shield,
    Dash,
    CastSpell,
}

/// Device state sampled once per frame: directions held (arrows or WASD),
/// the dash key just pressed, the first ability key held, the cast and
/// cancel buttons held, and the cursor in world coordinates.
#[derive(Clone, Copy, PartialEq, Eq, Debug, Structural)]
pub struct RawInput {
    pub up: bool,
    pub down: bool,
    pub left: bool,
    pub right: bool,
    pub dash: bool,
    pub select_spell: bool,
    pub cast: bool,
    pub cancel: bool,
    pub cursor: Vec2,
}

pub open spec fn action_bit(a: PlayerActions) -> u32 {
    match a {
        PlayerActions::Shield => SHIELD,
        PlayerActions::Dash => DASH,
        PlayerActions::CastSpell => CAST_SPELL,
    }
}

impl PlayerActions {
    /// The packet bit of this action.
    pub fn bit(&self) -> (r: u32)
        ensures
            r == action_bit(*self),
    {
        match self {
            PlayerActions::Shield => SHIELD,
            PlayerActions::Dash => DASH,
            PlayerActions::CastSpell => CAST_SPELL,
        }
    }
}

impl PlayerControls {
    /// A packet with no movement and no action.
    pub fn neutral() -> (r: PlayerControls)
        ensures
            r.move_direction.is_zero(),
            r.action_vars == 0,
            r.cast_spell_type == 0,
            r.mouse_position.is_zero(),
    {
        PlayerControls { move_direction: Vec2::zero(), action_vars: 0, cast_spell_type: 0, mouse_position: Vec2::zero() }
    }

    pub open spec fn has_spec(self, a: PlayerActions) -> bool {
        self.action_vars & action_bit(a) != 0
    }

    /// Whether the packet carries action `a`.
    pub fn has(&self, a: PlayerActions) -> (r: bool)
        ensures
            r == self.has_spec(a),
    {
        self.action_vars & a.bit() != 0
    }

    /// The packet's fixed byte layout.
    pub fn to_bytes(&self) -> (r: Vec<u8>)
        ensures
            r@ == packet_bytes(*self),
            r@.len() == PACKET_SIZE,
    {
        let mut out: Vec<u8> = Vec::new();
        push_le(&mut out, to_twos(self.move_direction.x), 8);
        push_le(&mut out, to_twos(self.move_direction.y), 8);
        push_le(&mut out, self.action_vars as u64, 4);
        push_le(&mut out, self.cast_spell_type as u64, 4);
        push_le(&mut out, to_twos(self.mouse_position.x), 8);
        push_le(&mut out, to_twos(self.mouse_position.y), 8);
        proof {
            lemma_le_bytes_len(twos(self.move_direction.x as int), 8);
            lemma_le_bytes_len(twos(self.move_direction.y as int), 8);
            lemma_le_bytes_len(self.action_vars as nat, 4);
            lemma_le_bytes_len(self.cast_spell_type as nat, 4);
            lemma_le_bytes_len(twos(self.mouse_position.x as int), 8);
            lemma_le_bytes_len(twos(self.mouse_position.y as int), 8);
        }
        out
    }

    /// Reads a packet from its byte layout; `None` unless exactly
    /// `PACKET_SIZE` bytes are given. Every such byte string is a packet.
    pub fn from_bytes(b: &Vec<u8>) -> (r: Option<PlayerControls>)
        ensures
            b@.len() == PACKET_SIZE ==> r == Some(packet_of(b@)),
            b@.len() != PACKET_SIZE ==> r is None,
    {
        if b.len() != PACKET_SIZE {
            return None;
        }
        let mx = from_twos(read_le(b, 0, 8));
        let my = from_twos(read_le(b, 8, 8));
        let action = read_le(b, 16, 4);
        let cast = read_le(b, 20, 4);
        let cx = from_twos(read_le(b, 24, 8));
        let cy = from_twos(read_le(b, 32, 8));
        Some(PlayerControls {
            move_direction: Vec2 { x: mx, y: my },
            action_vars: action as u32,
            cast_spell_type: cast as u32,
            mouse_position: Vec2 { x: cx, y: cy },
        })
    }
}

pub open spec fn pow256(n: nat) -> nat
    decreases n,
{
    if n == 0 {
        1
    } else {
        256 * pow256((n - 1) as nat)
    }
}

/// The `n` low bytes of `v`, least significant first.
pub open spec fn le_bytes(v: nat, n: nat) -> Seq<u8>
    decreases n,
{
    if n == 0 {
        Seq::empty()
    } else {
        seq![(v % 256) as u8] + le_bytes(v / 256, (n - 1) as nat)
    }
}

/// The number whose little-endian bytes are `s`.
pub open spec fn from_le(s: Seq<u8>) -> nat
    decreases s.len(),
{
    if s.len() == 0 {
        0
    } else {
        s[0] as nat + 256 * from_le(s.drop_first())
    }
}

/// Two's complement of a 64-bit signed value.
pub open spec fn twos(v: int) -> nat {
    if v >= 0 {
        v as nat
    } else {
        (v + 0x1_0000_0000_0000_0000) as nat
    }
}

/// The signed value of a 64-bit two's complement word.
pub open spec fn untwos(u: nat) -> int {
    if u < 0x8000_0000_0000_0000 {
        u as int
    } else {
        u - 0x1_0000_0000_0000_0000
    }
}

pub open spec fn packet_bytes(p: PlayerControls) -> Seq<u8> {
    le_bytes(twos(p.move_direction.x as int), 8) + le_bytes(twos(p.move_direction.y as int), 8) + le_bytes(
        p.action_vars as nat,
        4,
    ) + le_bytes(p.cast_spell_type as nat, 4) + le_bytes(twos(p.mouse_position.x as int), 8) + le_bytes(
        twos(p.mouse_position.y as int),
        8,
    )
}

pub open spec fn packet_of(b: Seq<u8>) -> PlayerControls {
    PlayerControls {
        move_direction: Vec2 {
            x: untwos(from_le(b.subrange(0, 8))) as i64,
            y: untwos(from_le(b.subrange(8, 16))) as i64,
        },
        action_vars: from_le(b.subrange(16, 20)) as u32,
        cast_spell_type: from_le(b.subrange(20, 24)) as u32,
        mouse_position: Vec2 {
            x: untwos(from_le(b.subrange(24, 32))) as i64,
            y: untwos(from_le(b.subrange(32, 40))) as i64,
        },
    }
}

proof fn lemma_le_bytes_len(v: nat, n: nat)
    ensures
        le_bytes(v, n).len() == n,
    decreases n,
{
    if n > 0 {
        lemma_le_bytes_len(v / 256, (n - 1) as nat);
    }
}

proof fn lemma_from_le_bound(s: Seq<u8>)
    ensures
        from_le(s) < pow256(s.len()),
    decreases s.len(),
{
    if s.len() > 0 {
        lemma_from_le_bound(s.drop_first());
    }
}

proof fn lemma_from_le_bytes(v: nat, n: nat)
    requires
        v < pow256(n),
    ensures
        from_le(le_bytes(v, n)) == v,
    decreases n,
{
    if n > 0 {
        let rest = le_bytes(v / 256, (n - 1) as nat);
        assert(le_bytes(v, n).drop_first() =~= rest);
        assert(v / 256 < pow256((n - 1) as nat));
        lemma_from_le_bytes(v / 256, (n - 1) as nat);
    }
}

proof fn lemma_le_bytes_from(s: Seq<u8>)
    ensures
        le_bytes(from_le(s), s.len()) == s,
    decreases s.len(),
{
    if s.len() > 0 {
        let v = from_le(s);
        let t = s.drop_first();
        lemma_le_bytes_from(t);
        assert(v % 256 == s[0] as nat && v / 256 == from_le(t)) by {
            vstd::arithmetic::div_mod::lemma_fundamental_div_mod_converse(
                v as int, 256, from_le(t) as int, s[0] as int);
        }
        assert(le_bytes(v, s.len()) =~= s);
    }
}

/// The byte layout is lossless: decoding an encoded packet gives the
/// packet back, and encoding a decoded `PACKET_SIZE`-byte string gives the
/// bytes back.
pub proof fn lemma_packet_round_trip(p: PlayerControls, b: Seq<u8>)
    ensures
        packet_of(packet_bytes(p)) == p,
        b.len() == PACKET_SIZE ==> packet_bytes(packet_of(b)) == b,
{
    lemma_pow256_values();
    let s = packet_bytes(p);
    let a = le_bytes(twos(p.move_direction.x as int), 8);
    let bb = le_bytes(twos(p.move_direction.y as int), 8);
    let c = le_bytes(p.action_vars as nat, 4);
    let d = le_bytes(p.cast_spell_type as nat, 4);
    let e = le_bytes(twos(p.mouse_position.x as int), 8);
    let f = le_bytes(twos(p.mouse_position.y as int), 8);
    lemma_le_bytes_len(twos(p.move_direction.x as int), 8);
    lemma_le_bytes_len(twos(p.move_direction.y as int), 8);
    lemma_le_bytes_len(p.action_vars as nat, 4);
    lemma_le_bytes_len(p.cast_spell_type as nat, 4);
    lemma_le_bytes_len(twos(p.mouse_position.x as int), 8);
    lemma_le_bytes_len(twos(p.mouse_position.y as int), 8);
    assert(s.subrange(0, 8) =~= a);
    assert(s.subrange(8, 16) =~= bb);
    assert(s.subrange(16, 20) =~= c);
    assert(s.subrange(20, 24) =~= d);
    assert(s.subrange(24, 32) =~= e);
    assert(s.subrange(32, 40) =~= f);
    lemma_from_le_bytes(twos(p.move_direction.x as int), 8);
    lemma_from_le_bytes(twos(p.move_direction.y as int), 8);
    lemma_from_le_bytes(p.action_vars as nat, 4);
    lemma_from_le_bytes(p.cast_spell_type as nat, 4);
    lemma_from_le_bytes(twos(p.mouse_position.x as int), 8);
    lemma_from_le_bytes(twos(p.mouse_position.y as int), 8);
    if b.len() == PACKET_SIZE {
        let q = packet_of(b);
        lemma_from_le_bound(b.subrange(0, 8));
        lemma_from_le_bound(b.subrange(8, 16));
        lemma_from_le_bound(b.subrange(16, 20));
        lemma_from_le_bound(b.subrange(20, 24));
        lemma_from_le_bound(b.subrange(24, 32));
        lemma_from_le_bound(b.subrange(32, 40));
        lemma_le_bytes_from(b.subrange(0, 8));
        lemma_le_bytes_from(b.subrange(8, 16));
        lemma_le_bytes_from(b.subrange(16, 20));
        lemma_le_bytes_from(b.subrange(20, 24));
        lemma_le_bytes_from(b.subrange(24, 32));
        lemma_le_bytes_from(b.subrange(32, 40));
        assert(packet_bytes(q) =~= b);
    }
}

/// Two's complement of `v` as an unsigned word.
fn to_twos(v: i64) -> (r: u64)
    ensures
        r == twos(v as int),
{
    if v >= 0 {
        v as u64
    } else {
        ((v + 0x7fff_ffff_ffff_ffff + 1) as u64) + 0x8000_0000_0000_0000
    }
}

/// The signed value of a two's complement word.
fn from_twos(u: u64) -> (r: i64)
    ensures
        r == untwos(u as nat),
{
    if u < 0x8000_0000_0000_0000 {
        u as i64
    } else {
        (u - 0x8000_0000_0000_0000) as i64 - 0x7fff_ffff_ffff_ffff - 1
    }
}

/// Appends the `n` low bytes of `v`, least significant first.
fn push_le(out: &mut Vec<u8>, v: u64, n: usize)
    requires
        n <= 8,
    ensures
        final(out)@ == old(out)@ + le_bytes(v as nat, n as nat),
{
    let ghost target = old(out)@ + le_bytes(v as nat, n as nat);
    let mut cur = v;
    let mut i: usize = 0;
    while i < n
        invariant
            i <= n,
            out@ + le_bytes(cur as nat, (n - i) as nat) == target,
        decreases n - i,
    {
        let ghost rest = le_bytes((cur / 256) as nat, (n - i - 1) as nat);
        assert(le_bytes(cur as nat, (n - i) as nat) == seq![(cur % 256) as u8] + rest);
        out.push((cur % 256) as u8);
        assert(out@ + rest =~= target);
        cur = cur / 256;
        i = i + 1;
    }
    assert(out@ =~= target);
}

/// Reads the `n`-byte little-endian number at `off`.
fn read_le(b: &Vec<u8>, off: usize, n: usize) -> (r: u64)
    requires
        n <= 8,
        off + n <= b.len(),
    ensures
        r == from_le(b@.subrange(off as int, off + n)),
{
    let mut acc: u64 = 0;
    let mut k: usize = n;
    proof {
        lemma_pow256_values();
    }
    while k > 0
        invariant
            k <= n <= 8,
            off + n <= b.len(),
            acc == from_le(b@.subrange(off + k, off + n)),
            pow256(8) == 0x1_0000_0000_0000_0000,
        decreases k,
    {
        let ghost s = b@.subrange(off + k - 1, off + n);
        proof {
            assert(s.drop_first() =~= b@.subrange(off + k, off + n));
            lemma_from_le_bound(s.drop_first());
            lemma_pow256_mono(s.len(), 8nat);
            assert(pow256(s.len()) == 256 * pow256(s.drop_first().len()));
        }
        acc = b[off + k - 1] as u64 + 256 * acc;
        k = k - 1;
    }
    acc
}

proof fn lemma_pow256_values()
    ensures
        pow256(4) == 0x1_0000_0000,
        pow256(8) == 0x1_0000_0000_0000_0000,
{
    assert(pow256(0) == 1);
    assert(pow256(1) == 0x100);
    assert(pow256(2) == 0x1_0000);
    assert(pow256(3) == 0x100_0000);
    assert(pow256(4) == 0x1_0000_0000);
    assert(pow256(5) == 0x100_0000_0000);
    assert(pow256(6) == 0x1_0000_0000_0000);
    assert(pow256(7) == 0x100_0000_0000_0000);
    assert(pow256(8) == 0x1_0000_0000_0000_0000);
}

proof fn lemma_pow256_mono(a: nat, b: nat)
    requires
        a <= b,
    ensures
        pow256(a) <= pow256(b),
    decreases b,
{
    if a < b {
        lemma_pow256_mono(a, (b - 1) as nat);
    }
}

/// The direction the held keys ask for.
pub open spec fn held_direction(raw: RawInput) -> Vec2 {
    Vec2 {
        x: ((if raw.right { 1int } else { 0 }) - (if raw.left { 1int } else { 0 })) as i64,
        y: ((if raw.up { 1int } else { 0 }) - (if raw.down { 1int } else { 0 })) as i64,
    }
}

/// The cast pipeline the sampling peer expects after its own selection:
/// the first ability key selects the first ability (when the actor has
/// one).
pub open spec fn sampled_selection(raw: RawInput, s: SpellCastState, first: Option<SpellCastInfo>) -> SpellCastState {
    if raw.select_spell && first is Some {
        cast_step(s, CastAction::Select(first->0))
    } else {
        s
    }
}

/// The packet sampled from device state and the actor's own state: no
/// direction while dashing, a dash only from walking with a dash available;
/// a selection of the first ability when its key is held; then, while an
/// ability is selected, a cast of it when the cast button is held, or else
/// a cancel when the cancel button is. The ability id travels with a
/// selection and with a cast.
pub open spec fn sampled_packet(
    raw: RawInput,
    state: PlayerMovementState,
    s: SpellCastState,
    first: Option<SpellCastInfo>,
) -> PlayerControls {
    let dashing = state.movement_state.is_dashing();
    let dash = state.movement_state is Walking && raw.dash && state.can_dash;
    let select = raw.select_spell && first is Some;
    let selected = sampled_selection(raw, s, first);
    let cast = selected is Precast && raw.cast;
    let cancel = selected is Precast && !raw.cast && raw.cancel;
    PlayerControls {
        move_direction: if dashing { Vec2 { x: 0, y: 0 } } else { held_direction(raw) },
        action_vars: (if dash { DASH } else { 0 }) | (if select { SELECT_SPELL } else { 0 }) | (if cast {
            CAST_SPELL
        } else {
            0
        }) | (if cancel { CANCEL_SPELL } else { 0 }),
        cast_spell_type: if selected is Precast { selected->spell_id.spell_id.id } else { 0 },
        mouse_position: raw.cursor,
    }
}

pub open spec fn first_spell(spells: Seq<SpellCastInfo>) -> Option<SpellCastInfo> {
    if spells.len() > 0 { Some(spells[0]) } else { None }
}

/// Samples the local actor's packet for one frame: a pure function of the
/// device state and the actor's state. Selecting, casting and cancelling
/// all travel in the packet; the simulation applies them.
pub fn input(
    raw: &RawInput,
    state: &PlayerMovementState,
    cast_state: SpellCastState,
    spells: &PlayerSpells,
) -> (r: PlayerControls)
    ensures
        r == sampled_packet(*raw, *state, cast_state, first_spell(spells.spells@)),
{
    let mut direction = Vec2::zero();
    match state.movement_state {
        MovementState::Dashing { .. } => {},
        _ => {
            if raw.up {
                direction.y = direction.y + 1;
            }
            if raw.down {
                direction.y = direction.y - 1;
            }
            if raw.right {
                direction.x = direction.x + 1;
            }
            if raw.left {
                direction.x = direction.x - 1;
            }
        },
    }
    let walking = match state.movement_state {
        MovementState::Walking => true,
        _ => false,
    };
    let dash = walking && raw.dash && state.can_dash;
    let select = raw.select_spell && spells.spells.len() > 0;
    let selected = if select {
        next_cast_state(&cast_state, &CastAction::Select(spells.spells[0]))
    } else {
        cast_state
    };
    let mut cast = false;
    let mut cancel = false;
    let mut ability: u32 = 0;
    if let SpellCastState::Precast { spell_id } = selected {
        ability = spell_id.spell_id.id;
        if raw.cast {
            cast = true;
        } else if raw.cancel {
            cancel = true;
        }
    }
    let action_vars = (if dash { DASH } else { 0 }) | (if select { SELECT_SPELL } else { 0 }) | (if cast {
        CAST_SPELL
    } else {
        0
    }) | (if cancel { CANCEL_SPELL } else { 0 });
    PlayerControls { move_direction: direction, action_vars, cast_spell_type: ability, mouse_position: raw.cursor }
}

} // verus!
