//! The shared world model the simulation handlers run on: the entity
//! pool, the terrain planes, and the handful of per-world registers
//! the handlers read and write.
//!
//! Terrain planes are 256 x 256 cells indexed row-major (`y * 256 +
//! x`); byte coordinates wrap, so every cell reference stays inside
//! the plane. Slot 0 of the pool is the null entity: entity links and
//! chains use 0 as "none".

use vstd::prelude::*;
use std::collections::HashMap;

verus! {

/// Cells per plane.
pub const PLANE_CELLS: usize = 65536;

/// Sentinel target slot for the human player's carpet (the player
/// lives outside the pool).
pub const PLAYER_TARGET: u16 = 0xFFFF;

/// Entity flag: despawn requested (reaped at the end of the tick).
pub const F_DEAD: u32 = 0x400;

/// Entity flag: no corpse is left (also the quake grab latch).
pub const F_NO_CORPSE: u32 = 0x1000_0000;

/// One pool entity. Field names carry the game's record offsets.
#[derive(Debug, Clone, Copy, PartialEq, Eq, Default)]
pub struct Ent {
    pub class64: u8,
    pub model65: u8,
    /// The action/state index the dispatch runs.
    pub tick70: u8,
    pub flags: u32,
    pub x: u16,
    pub y: u16,
    pub z: i16,
    /// Owner/identity slot.
    pub id24: u16,
    /// Next entity in the same map cell (0 = end of the cell chain).
    pub next20: u16,
    pub rand: u32,
    pub max_life: u32,
    pub act_life: i32,
    pub f26: i16,
    pub f28: u8,
    pub f30: u16,
    pub f_32: u16,
    pub f34: u16,
    pub f36: u16,
    pub f38: u16,
    pub f40: u16,
    pub f44: u16,
    pub f46: i16,
    pub f50: u16,
    pub f52: u16,
    /// Next linked sub-entity (body segment chain, 0 = end).
    pub f54: u16,
    pub f56: u16,
    pub f58: i16,
    pub f59: u8,
    pub f63: u8,
    pub f66: u8,
    pub f67: u8,
    pub f68: u8,
    pub f69: u8,
    pub f71: u8,
    pub f78: u16,
    pub f80: u16,
    pub f82: u16,
    pub f84: u16,
    pub f126: i16,
    pub f_128: i16,
    pub f130: i16,
    pub f136: i32,
    pub f140: i32,
    pub f144: u16,
    pub f146: u16,
    pub row156: u8,
    pub type86: u16,
    pub frame88: u8,
    pub frames89: u8,
    pub dest_x: u16,
    pub dest_y: u16,
    pub site_z: i16,
    /// The authored template index the entity was spawned from.
    pub thing_slot: u16,
    /// The mailboxes: `(amount, sender)` per channel; a zero sender
    /// means empty.
    pub mail: [(u32, u16); 6],
}

/// Who a mailbox write lands on: a pool entity or the human player.
#[derive(Debug, Clone, Copy, PartialEq, Eq)]
pub enum MailTarget {
    Pool(usize),
    Player,
}

/// The terrain planes.
#[derive(Debug)]
pub struct Planes {
    pub height: Vec<u8>,
    pub tile_type: Vec<u8>,
    pub shading: Vec<u8>,
    pub angle: Vec<u8>,
    /// The cave ceiling plane; empty on non-cave levels.
    pub ceiling: Vec<u8>,
}

/// One castle footprint row of the building table: dimensions in tiles
/// and the offset of its cell data.
#[derive(Debug, Clone, Copy, PartialEq, Eq)]
pub struct BuildDef {
    pub w: u8,
    pub h: u8,
    pub offset: u32,
}

/// The sprite stats row the MC1 sprite setter derives extents from.
#[derive(Debug, Clone, Copy, PartialEq, Eq)]
pub struct SpriteStats {
    pub draw_type: u8,
    pub width: u16,
    pub height: u16,
}

/// The creature behavior row fields the altitude clamp reads.
#[derive(Debug, Clone, Copy, PartialEq, Eq)]
pub struct BehaviorRow {
    /// Upper band offset above ground.
    pub v_10: i16,
    /// Hover (lower band) offset above ground.
    pub v_12: i16,
    /// Vertical step.
    pub v_14: i16,
}

/// The player's position, handed to the creature handlers each tick.
#[derive(Debug, Clone, Copy, PartialEq, Eq, Default)]
pub struct MobCtx {
    pub px: u16,
    pub py: u16,
    pub pz: i16,
    /// The player's yaw.
    pub pyaw: u16,
}

/// The world.
pub struct Gen {
    pub ent: Vec<Ent>,
    pub t: Planes,
    /// Per cell, the first entity standing in it (0 = none).
    pub map_entity: Vec<u16>,
    /// Non-Day maps invert the shading.
    pub mc2_night_shade: bool,
    /// The player-side castle-under-attack alert latch.
    pub castle_alert: u8,
    /// The human wizard's "wanted" timer.
    pub player_aggro: i32,
    /// The danger-music countdown.
    pub player_danger: i32,
    pub player_invisible: bool,
    /// Creature kills credited to the player.
    pub kills: u32,
    /// Wanted timers of pool wizards, by slot.
    pub mc2_wanted: HashMap<u16, i16>,
    /// Rival wizard entity slots (0 = none); index = personality slot.
    pub rival_ents: Vec<u16>,
    /// Castle life scale (16.8) per personality slot.
    pub mc2_life_scale: Vec<i32>,
    /// The castle footprint rows by level.
    pub build_tab: Vec<BuildDef>,
    /// Derived sprite extents `(speed_6, rot_speed_8)` by sprite row;
    /// empty when the assets carry none.
    pub mc2_sprite_ext: Vec<(u16, u16)>,
    /// The static sprite-param rows `(speed_6, rot_speed_8)`.
    pub sprite_params: Vec<(u16, u16)>,
    /// The MC1 sprite stats rows.
    pub sprite_stats: Vec<SpriteStats>,
    /// Sound requests raised this tick: `(sound, entity slot)`.
    pub sounds: Vec<(u8, u16)>,
    /// Creatures spawned so far, by model (each spawn's ordinal).
    pub spawn_count: Vec<u8>,
}

/// One live StageVar slot: a triggered-spawn hold gate.
#[derive(Debug, Clone, Copy, PartialEq, Eq, Hash)]
pub struct Mc2StageVar {
    /// The kind (1..9); 0 = empty slot.
    pub kind: u8,
    /// `&1` match spawns by subtype (else by template index); `&2`
    /// watch a referenced model's extinction (else a bound entity's
    /// death); `&4` fired; `&0x08`/`&0x10` the kind-7 disposition arm
    /// (a 2-tick decay); `&0x20`/`&0x40` the cadence mode.
    pub flags: u8,
    /// The chain slot: on release, re-hold on this slot (0 = end).
    pub chain: u8,
    /// The cadence counter, advanced on each arm.
    pub cadence: u8,
    /// The template index whose spawn this var holds.
    pub hold_word: u16,
    /// The model of that template (matched when `&1`).
    pub hold_subtype: u8,
    /// The fly-point in engine units (kinds 1 and 9).
    pub point: (u16, u16),
    /// The template the death/extinction watch keys off.
    pub watch_template: u16,
    /// The model of that template (watched when `&2`).
    pub watch_model: u8,
    /// The bound entity slot of the death watch (0 = unbound).
    pub watch_ent: u16,
    /// The kind-6 timer seed / kind-7 disposition id.
    pub param: u16,
}

/// One held creature and the StageVar gating it.
#[derive(Debug, Clone, Copy, PartialEq, Eq, Hash)]
pub struct Mc2Held {
    /// The held entity's slot.
    pub ent: u16,
    /// The StageVar slot gating it.
    pub slot: u8,
    /// The kind-6 countdown (0 for other kinds).
    pub timer: i16,
}

/// The world: the simulation state, the level's StageVars with the
/// creatures they hold, and the model of each authored template.
pub struct World {
    pub g: Gen,
    pub mc2_stagevars: Vec<Mc2StageVar>,
    pub mc2_sv_held: Vec<Mc2Held>,
    /// The model of each authored template, by template index.
    pub thing_models: Vec<u8>,
    /// The level carries the doom palette: the pyramid lives only there.
    pub mc2_doom_level: bool,
    /// The doomsday meter (60 while the pyramid is active).
    pub mc2_doom_meter: u8,
    /// The apocalypse dome is up.
    pub mc2_apocalypse: bool,
}

/// The terrain planes as sequences.
pub ghost struct PlaneView {
    pub h: Seq<u8>,
    pub ty: Seq<u8>,
    pub sh: Seq<u8>,
    pub an: Seq<u8>,
    pub ce: Seq<u8>,
}

impl View for Planes {
    type V = PlaneView;

    open spec fn view(&self) -> PlaneView {
        PlaneView {
            h: self.height@,
            ty: self.tile_type@,
            sh: self.shading@,
            an: self.angle@,
            ce: self.ceiling@,
        }
    }
}

impl PlaneView {
    /// Full-size planes, the ceiling absent or full-size.
    pub open spec fn wf(self) -> bool {
        &&& self.h.len() == PLANE_CELLS
        &&& self.ty.len() == PLANE_CELLS
        &&& self.sh.len() == PLANE_CELLS
        &&& self.an.len() == PLANE_CELLS
        &&& (self.ce.len() == 0 || self.ce.len() == PLANE_CELLS)
    }
}

/// The planes after applying `f` at each cell of `cells`, in order.
pub open spec fn fold_cells(
    p: PlaneView,
    cells: Seq<int>,
    f: spec_fn(PlaneView, int) -> PlaneView,
) -> PlaneView
    decreases cells.len(),
{
    if cells.len() == 0 {
        p
    } else {
        f(fold_cells(p, cells.drop_last(), f), cells.last())
    }
}

/// The cell index of byte coordinates.
pub open spec fn tile_spec(x: int, y: int) -> int {
    y * 256 + x
}

/// The cell index of byte coordinates (row-major, 256 cells per row).
pub fn tile(x: u8, y: u8) -> (r: usize)
    ensures
        r as int == tile_spec(x as int, y as int),
        r < PLANE_CELLS,
{
    (y as usize) * 256 + (x as usize)
}

/// The high byte of an engine coordinate is its tile coordinate.
pub proof fn lemma_hi_byte(x: u16)
    ensures
        ((x >> 8u16) as u8) as int == x as int / 256,
        x >> 8u16 == x / 256,
{
    assert(((x >> 8u16) as u8) as u16 == x / 256 && x >> 8u16 == x / 256) by (bit_vector);
}

/// The tile an engine coordinate rounds to: `(x + 128) >> 8`, the sum
/// wrapping at 16 bits.
pub open spec fn center_spec(x: u16) -> int {
    ((x as int + 128) % 65536) / 256
}

/// The tile an engine coordinate rounds to (half a tile up, then the
/// high byte).
pub fn center_byte(x: u16) -> (r: u8)
    ensures
        r as int == center_spec(x),
{
    let s = x.wrapping_add(128);
    proof {
        lemma_hi_byte(s);
    }
    (s >> 8) as u8
}

/// The slots of the cell chain from `j`, following `next20` for at
/// most `fuel` links (0 ends the chain).
pub open spec fn chain(ents: Seq<Ent>, j: int, fuel: nat) -> Seq<int>
    decreases fuel,
{
    if fuel == 0 || j <= 0 || j >= ents.len() {
        Seq::empty()
    } else {
        seq![j] + chain(ents, ents[j].next20 as int, (fuel - 1) as nat)
    }
}

/// The slots of the body-segment chain from `j`, following `f54` for at
/// most `fuel` links (0 ends the chain).
pub open spec fn seg_chain(ents: Seq<Ent>, j: int, fuel: nat) -> Seq<int>
    decreases fuel,
{
    if fuel == 0 || j <= 0 || j >= ents.len() {
        Seq::empty()
    } else {
        seq![j] + seg_chain(ents, ents[j].f54 as int, (fuel - 1) as nat)
    }
}

/// The body-segment chain from `j` reaches 0 within `fuel` links.
pub open spec fn seg_ends(ents: Seq<Ent>, j: int, fuel: nat) -> bool
    decreases fuel,
{
    if j == 0 {
        true
    } else if fuel == 0 || j < 0 || j >= ents.len() {
        false
    } else {
        seg_ends(ents, ents[j].f54 as int, (fuel - 1) as nat)
    }
}

/// The x byte of a cell index.
pub open spec fn cell_x(t: int) -> int {
    t % 256
}

/// The y byte of a cell index.
pub open spec fn cell_y(t: int) -> int {
    t / 256
}

impl Planes {
    /// Every plane holds one byte per cell; the ceiling is either absent
    /// or full-size.
    pub open spec fn wf(&self) -> bool {
        &&& self.height@.len() == PLANE_CELLS
        &&& self.tile_type@.len() == PLANE_CELLS
        &&& self.shading@.len() == PLANE_CELLS
        &&& self.angle@.len() == PLANE_CELLS
        &&& (self.ceiling@.len() == 0 || self.ceiling@.len() == PLANE_CELLS)
    }
}

impl Gen {
    /// The world invariant: full-size planes, a non-empty pool that u16
    /// slots can address, every entity link and cell chain pointing into
    /// the pool, and a 16.8 life scale in 0..=256.0 for every
    /// personality slot.
    pub open spec fn wf(&self) -> bool {
        &&& self.t.wf()
        &&& self.map_entity@.len() == PLANE_CELLS
        &&& 1 <= self.ent@.len() <= 65535
        &&& forall|j: int|
            0 <= j < self.ent@.len() ==> (#[trigger] self.ent@[j]).f54 < self.ent@.len()
                && self.ent@[j].next20 < self.ent@.len()
        &&& forall|t: int| 0 <= t < PLANE_CELLS ==> #[trigger] self.map_entity@[t] < self.ent@.len()
        &&& self.mc2_life_scale@.len() >= 1
        &&& self.mc2_life_scale@.len() >= self.rival_ents@.len()
    }

    /// Is the level a cave (does it carry a ceiling plane)?
    pub open spec fn cave(&self) -> bool {
        self.t.ceiling@.len() != 0
    }

    /// The tables and cell chains are unchanged; the pool keeps its size
    /// and links; the planes keep their sizes.
    pub open spec fn shape_eq(&self, other: &Gen) -> bool {
        &&& other.ent@.len() == self.ent@.len()
        &&& forall|j: int|
            0 <= j < self.ent@.len() ==> (#[trigger] other.ent@[j]).f54 == self.ent@[j].f54
                && other.ent@[j].next20 == self.ent@[j].next20
        &&& other.t.height@.len() == self.t.height@.len()
        &&& other.t.tile_type@.len() == self.t.tile_type@.len()
        &&& other.t.shading@.len() == self.t.shading@.len()
        &&& other.t.angle@.len() == self.t.angle@.len()
        &&& other.t.ceiling@.len() == self.t.ceiling@.len()
        &&& other.map_entity == self.map_entity
        &&& other.mc2_night_shade == self.mc2_night_shade
        &&& other.rival_ents == self.rival_ents
        &&& other.mc2_life_scale == self.mc2_life_scale
        &&& other.build_tab == self.build_tab
        &&& other.mc2_sprite_ext == self.mc2_sprite_ext
        &&& other.sprite_params == self.sprite_params
        &&& other.sprite_stats == self.sprite_stats
        &&& other.spawn_count == self.spawn_count
    }

    /// The player/castle registers are unchanged.
    pub open spec fn scalars_eq(&self, other: &Gen) -> bool {
        &&& other.castle_alert == self.castle_alert
        &&& other.player_aggro == self.player_aggro
        &&& other.player_danger == self.player_danger
        &&& other.player_invisible == self.player_invisible
        &&& other.kills == self.kills
        &&& other.mc2_wanted == self.mc2_wanted
    }

    /// The registers, tables and cell chains are unchanged; the pool
    /// keeps its size and links; the planes keep their sizes.
    pub open spec fn regs_eq(&self, other: &Gen) -> bool {
        &&& self.shape_eq(other)
        &&& self.scalars_eq(other)
    }

    /// Only the entity pool changed (sizes and links kept).
    pub open spec fn frame_ent(&self, other: &Gen) -> bool {
        &&& self.regs_eq(other)
        &&& other.t@ == self.t@
        &&& other.sounds == self.sounds
    }

    /// Only the terrain planes changed (sizes kept).
    pub open spec fn frame_planes(&self, other: &Gen) -> bool {
        &&& self.regs_eq(other)
        &&& other.ent == self.ent
        &&& other.sounds == self.sounds
    }

    /// Raise a sound request at an entity.
    pub fn snd(&mut self, sound: u8, i: usize)
        requires
            i < 65536,
        ensures
            final(self).sounds@ == old(self).sounds@.push((sound, i as u16)),
            old(self).regs_eq(final(self)),
            final(self).ent == old(self).ent,
            final(self).t@ == old(self).t@,
            final(self).wf() == old(self).wf(),
    {
        self.sounds.push((sound, i as u16));
    }
}

} // verus!
