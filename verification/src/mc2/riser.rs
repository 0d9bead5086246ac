//! The class-14 model-1 terrain riser and its (10,63)/(10,64)
//! lower/raise triggers.
//!
//! The riser is a three-phase terrain machine on its life: 0 = instant
//! build (+48 in one tick), 1 = animated raise (+1 per tick, 48 ticks,
//! loop sound 47), 2 = animated lower (-1 per tick toward the flank
//! level, then the terrain-type restore), 3 and 4 = idle built/removed.
//! It rewrites height, tile type (8 = ridge), angle, shading and the
//! dirty bit; on caves every bit3 clear becomes the full floor/ceiling
//! invariant. Field homes: length `f26`, progress (0..48) `f44`,
//! orientation `f71` (0 = strip along +X, 1 = along +Y, 2.. counters
//! only).
//!
//! Cell stepping comes in two flavours: the 16-bit index step
//! ([`wstep`], x carries into y) and the byte-axis step ([`bstep`],
//! each axis wraps on its own).

use vstd::prelude::*;
use crate::world::{
    Ent, Gen, PlaneView, PLANE_CELLS, F_DEAD, center_byte, center_spec, chain, fold_cells, tile,
    tile_spec,
};
use crate::mc2::cave::{dec_wrap, lemma_bit3, seal_synced, seal_view};
use crate::mc2::flood::shade_spec;

verus! {

/// The 16-bit cell-index step.
pub open spec fn wstep(t: int, d: int) -> int {
    (t + d) % 65536
}

/// The byte-axis step: x and y each wrap on their own.
pub open spec fn bstep(t: int, dx: int, dy: int) -> int {
    tile_spec((t % 256 + dx) % 256, (t / 256 + dy) % 256)
}

/// Word steps compose.
pub proof fn lemma_wstep(t: int, a: int, b: int)
    ensures
        0 <= wstep(t, a) < 65536,
        wstep(wstep(t, a), b) == wstep(t, a + b),
{
    vstd::arithmetic::div_mod::lemma_add_mod_noop(t + a, b, 65536);
    vstd::arithmetic::div_mod::lemma_mod_twice(b, 65536);
    vstd::arithmetic::div_mod::lemma_add_mod_noop((t + a) % 65536, b, 65536);
    vstd::arithmetic::div_mod::lemma_mod_twice(t + a, 65536);
}

/// Byte steps compose.
pub proof fn lemma_bstep(t: int, a: int, b: int, c: int, d: int)
    requires
        0 <= t < 65536,
    ensures
        0 <= bstep(t, a, b) < 65536,
        bstep(bstep(t, a, b), c, d) == bstep(t, a + c, b + d),
{
    let x = (t % 256 + a) % 256;
    let y = (t / 256 + b) % 256;
    let u = bstep(t, a, b);
    assert(u == y * 256 + x);
    vstd::arithmetic::div_mod::lemma_fundamental_div_mod_converse(u, 256, y, x);
    vstd::arithmetic::div_mod::lemma_add_mod_noop(t % 256 + a, c, 256);
    vstd::arithmetic::div_mod::lemma_mod_twice(c, 256);
    vstd::arithmetic::div_mod::lemma_add_mod_noop(x, c, 256);
    vstd::arithmetic::div_mod::lemma_mod_twice(t % 256 + a, 256);
    vstd::arithmetic::div_mod::lemma_add_mod_noop(t / 256 + b, d, 256);
    vstd::arithmetic::div_mod::lemma_mod_twice(d, 256);
    vstd::arithmetic::div_mod::lemma_add_mod_noop(y, d, 256);
    vstd::arithmetic::div_mod::lemma_mod_twice(t / 256 + b, 256);
}

/// A cell stepped `d` times `k` along a step kind: 0 = word, 1 = byte
/// x, 2 = byte y.
pub open spec fn gpos(t: int, kind: int, d: int) -> int {
    if kind == 0 {
        wstep(t, d)
    } else if kind == 1 {
        bstep(t, d, 0)
    } else {
        bstep(t, 0, d)
    }
}

proof fn lemma_gpos(t: int, kind: int, a: int, b: int)
    requires
        0 <= t < 65536,
    ensures
        0 <= gpos(t, kind, a) < 65536,
        gpos(gpos(t, kind, a), kind, b) == gpos(t, kind, a + b),
        gpos(t, kind, 0) == t,
{
    if kind == 0 {
        lemma_wstep(t, a, b);
        assert(wstep(t, 0) == t) by {
            vstd::arithmetic::div_mod::lemma_small_mod(t as nat, 65536);
        }
    } else if kind == 1 {
        lemma_bstep(t, a, 0, b, 0);
        lemma_bstep_zero(t);
    } else {
        lemma_bstep(t, 0, a, 0, b);
        lemma_bstep_zero(t);
    }
}

proof fn lemma_bstep_zero(t: int)
    requires
        0 <= t < 65536,
    ensures
        bstep(t, 0, 0) == t,
{
    vstd::arithmetic::div_mod::lemma_fundamental_div_mod(t, 256);
    vstd::arithmetic::div_mod::lemma_mod_twice(t, 256);
    assert(t / 256 < 256) by {
        vstd::arithmetic::div_mod::lemma_div_is_ordered(t, 65535, 256);
    }
    vstd::arithmetic::div_mod::lemma_small_mod((t / 256) as nat, 256);
}

/// A stepped rectangle of cells, outer lines first: `nc` lines from
/// `start` along step kind `ck` by `cs`, each shifted by the word
/// offset `roff` and walked `nr` cells along kind `rk` by `rs`.
pub open spec fn grid(start: int, nc: int, ck: int, cs: int, roff: int, nr: int, rk: int, rs: int) -> Seq<int> {
    let nc0 = if nc < 0 { 0 } else { nc };
    let nr0 = if nr < 0 { 0 } else { nr };
    Seq::new((nc0 * nr0) as nat, |k: int| gpos(wstep(gpos(start, ck, cs * (k / nr0)), roff), rk, rs * (k % nr0)))
}

/// What a riser pass does at one cell.
#[derive(Clone, Copy)]
pub enum RiserOp {
    /// +48 unless already ridge with a smooth (<= 30) step to the +Y
    /// byte neighbour.
    RaiseY,
    /// +48 unless already ridge with a smooth step to the next word
    /// cell.
    RaiseX,
    /// Ridge type 8, angle 1.
    Stamp,
    /// The cave invariant on caves, else the bit3 clear.
    Sync,
    /// The bit3 clear.
    Clear3,
    /// The dirty bit 0x80.
    Dirty,
    /// Height +1 (wrapping).
    Inc,
    /// The cave invariant (no-op off-cave).
    Seal,
    /// Height -1 where above the mean of the two flank cells: byte x
    /// `bx - 2` and `bx + 1` on the cell's row (`along_x` false), or
    /// byte y `by - 2` and `by + 1` on its column (`along_x` true).
    Lower { bx: u8, by: u8, along_x: bool },
    /// Copy type and angle (with the dirty bit) from the flank source,
    /// shading 32: the source is the cell's row at byte x `bx + 2`
    /// (`along_x` false; jumped `half` along +Y by byte while it is
    /// ridge), or its column at byte y `by + 2` (`along_x` true;
    /// jumped `half` by word).
    Copy { bx: u8, by: u8, along_x: bool, half: i32 },
}

/// The +48 raise at `t` against neighbour `nb`.
pub open spec fn raise_view(p: PlaneView, t: int, nb: int) -> PlaneView {
    let d = p.h[t] - p.h[nb];
    if p.ty[t] != 8 || d > 30 || -d > 30 {
        PlaneView { h: p.h.update(t, ((p.h[t] + 48) % 256) as u8), ..p }
    } else {
        p
    }
}

pub open spec fn stamp_view(p: PlaneView, t: int) -> PlaneView {
    PlaneView { ty: p.ty.update(t, 8u8), an: p.an.update(t, 1u8), ..p }
}

pub open spec fn clear3_view(p: PlaneView, t: int) -> PlaneView {
    PlaneView { an: p.an.update(t, p.an[t] & 0xF7u8), ..p }
}

pub open spec fn dirty_view(p: PlaneView, t: int) -> PlaneView {
    PlaneView { an: p.an.update(t, p.an[t] | 0x80u8), ..p }
}

pub open spec fn inc_view(p: PlaneView, t: int) -> PlaneView {
    PlaneView { h: p.h.update(t, ((p.h[t] + 1) % 256) as u8), ..p }
}

/// The flank cells of a lowering cell.
pub open spec fn lower_flanks(t: int, bx: int, by: int, along_x: bool) -> (int, int) {
    if along_x {
        (tile_spec(t % 256, (by + 254) % 256), tile_spec(t % 256, (by + 1) % 256))
    } else {
        (tile_spec((bx + 254) % 256, t / 256), tile_spec((bx + 1) % 256, t / 256))
    }
}

pub open spec fn lower_view(p: PlaneView, t: int, bx: int, by: int, along_x: bool) -> PlaneView {
    let (f1, f2) = lower_flanks(t, bx, by, along_x);
    let flank = (p.h[f1] + p.h[f2]) / 2;
    if flank < p.h[t] {
        PlaneView { h: p.h.update(t, (p.h[t] - 1) as u8), ..p }
    } else {
        p
    }
}

/// The restore source of a cell.
pub open spec fn copy_src(p: PlaneView, t: int, bx: int, by: int, along_x: bool, half: int) -> int {
    if along_x {
        let s = tile_spec(t % 256, (by + 2) % 256);
        if p.ty[s] == 8 { wstep(s, half) } else { s }
    } else {
        let s = tile_spec((bx + 2) % 256, t / 256);
        if p.ty[s] == 8 { bstep(s, 0, half) } else { s }
    }
}

pub open spec fn copy_view(p: PlaneView, t: int, bx: int, by: int, along_x: bool, half: int) -> PlaneView {
    let s = copy_src(p, t, bx, by, along_x, half);
    PlaneView {
        ty: p.ty.update(t, p.ty[s]),
        an: p.an.update(t, p.an[s] | 0x80u8),
        sh: p.sh.update(t, 32u8),
        ..p
    }
}

/// The planes after one riser op at cell `t`.
pub open spec fn op_view(op: RiserOp, p: PlaneView, t: int) -> PlaneView {
    match op {
        RiserOp::RaiseY => raise_view(p, t, bstep(t, 0, 1)),
        RiserOp::RaiseX => raise_view(p, t, wstep(t, 1)),
        RiserOp::Stamp => stamp_view(p, t),
        RiserOp::Sync => if p.ce.len() != 0 { seal_view(p, t) } else { clear3_view(p, t) },
        RiserOp::Clear3 => clear3_view(p, t),
        RiserOp::Dirty => dirty_view(p, t),
        RiserOp::Inc => inc_view(p, t),
        RiserOp::Seal => seal_view(p, t),
        RiserOp::Lower { bx, by, along_x } => lower_view(p, t, bx as int, by as int, along_x),
        RiserOp::Copy { bx, by, along_x, half } => copy_view(p, t, bx as int, by as int, along_x, half as int),
    }
}

pub open spec fn op_fn(op: RiserOp) -> spec_fn(PlaneView, int) -> PlaneView {
    |p: PlaneView, t: int| op_view(op, p, t)
}

/// The shading of cell `t` from its NW and SE neighbours.
pub open spec fn shade_at(p: PlaneView, t: int, night: bool) -> PlaneView {
    PlaneView {
        sh: p.sh.update(t, shade_spec(p.h[bstep(t, -1, -1)] as int, p.h[bstep(t, 1, 1)] as int, night)),
        ..p
    }
}

pub open spec fn shade_fn(night: bool) -> spec_fn(PlaneView, int) -> PlaneView {
    |p: PlaneView, t: int| shade_at(p, t, night)
}

/// `count` cells from `bb` stepped byte-wise along x (or y), the first
/// at offset `first`.
pub open spec fn line(bb: int, along_x: bool, first: int, count: int) -> Seq<int> {
    let n = if count < 0 { 0 } else { count };
    Seq::new(n as nat, |k: int| if along_x { bstep(bb, first + k, 0) } else { bstep(bb, 0, first + k) })
}


/// The dirty block of a +Y strip: 9 columns from `bb - 3` (word steps)
/// by `l + 6` rows from 3 rows up.
pub open spec fn dirty_y_cells(bb: int, l: int) -> Seq<int> {
    grid(wstep(bb, -3), 9, 0, 1, -768, l + 6, 2, 1)
}

/// The dirty block of a +X strip: `l + 6` columns from `bb - 3` by 9
/// rows from 3 rows down, walking up.
pub open spec fn dirty_x_cells(bb: int, l: int) -> Seq<int> {
    grid(wstep(bb, -3), l + 6, 0, 1, 768, 9, 2, -1)
}

pub open spec fn fold_op(p: PlaneView, cells: Seq<int>, op: RiserOp) -> PlaneView {
    fold_cells(p, cells, op_fn(op))
}

/// The instant build of a +Y strip at base cell `bb`, length `l`:
/// raise 2 columns, stamp 3, sync 4 (byte-stepped columns on caves),
/// shade the strip, mark it dirty.
pub open spec fn build_y_view(p: PlaneView, bb: int, l: int, night: bool) -> PlaneView {
    let cave = p.ce.len() != 0;
    let p1 = fold_op(p, grid(bb, 2, 0, -1, 0, l, 2, 1), RiserOp::RaiseY);
    let p2 = fold_op(p1, grid(bb, 3, 0, -1, -256, l + 1, 2, 1), RiserOp::Stamp);
    let p3 = fold_op(p2, grid(wstep(bb, 1), 4, if cave { 1 } else { 0 }, -1, -256, l + 2, 2, 1), RiserOp::Sync);
    let p4 = fold_cells(p3, line(bb, false, -1, l + 1), shade_fn(night));
    fold_op(p4, dirty_y_cells(bb, l), RiserOp::Dirty)
}

/// The instant build of a +X strip (the mirror of [`build_y_view`]).
pub open spec fn build_x_view(p: PlaneView, bb: int, l: int, night: bool) -> PlaneView {
    let p1 = fold_op(p, grid(bb, l, 0, 1, 0, 2, 2, -1), RiserOp::RaiseX);
    let p2 = fold_op(p1, grid(wstep(bb, -1), l + 1, 0, 1, 0, 3, 2, -1), RiserOp::Stamp);
    let p3 = fold_op(p2, grid(wstep(bb, -1), l + 2, 0, 1, 256, 4, 2, -1), RiserOp::Sync);
    let p4 = fold_cells(p3, line(bb, true, -1, l + 1), shade_fn(night));
    fold_op(p4, dirty_x_cells(bb, l), RiserOp::Dirty)
}

/// The raise's first-tick stamp of a +Y strip: the interior stamp,
/// off-cave the bit3 clear, the dirty block.
pub open spec fn stamp_y_view(p: PlaneView, bb: int, l: int) -> PlaneView {
    let p1 = fold_op(p, grid(bb, 3, 0, -1, 512, l - 5, 2, 1), RiserOp::Stamp);
    let p2 = if p.ce.len() != 0 {
        p1
    } else {
        fold_op(p1, grid(wstep(bb, 1), 4, 0, -1, 512, l - 4, 2, 1), RiserOp::Clear3)
    };
    fold_op(p2, dirty_y_cells(bb, l), RiserOp::Dirty)
}

/// The raise's first-tick stamp of a +X strip.
pub open spec fn stamp_x_view(p: PlaneView, bb: int, l: int) -> PlaneView {
    let p1 = fold_op(p, grid(wstep(bb, 2), l - 5, 0, 1, 0, 3, 2, -1), RiserOp::Stamp);
    let p2 = if p.ce.len() != 0 {
        p1
    } else {
        fold_op(p1, grid(wstep(bb, 2), l - 4, 0, 1, 256, 4, 2, -1), RiserOp::Clear3)
    };
    fold_op(p2, dirty_x_cells(bb, l), RiserOp::Dirty)
}

/// The strip interior the animation moves: rows (or columns) 3..l-3 of
/// the two strip lines.
pub open spec fn interior(bb: int, l: int, along_x: bool) -> Seq<int> {
    if along_x {
        grid(bstep(bb, 3, 0), l - 6, 1, 1, 0, 2, 2, -1)
    } else {
        grid(bstep(bb, 0, 3), l - 6, 2, 1, 0, 2, 1, -1)
    }
}

/// One animated raise tick on the planes: the first tick's stamp, +1
/// over the interior, the cave invariant over it, and on the last tick
/// the shading (3 cells for +Y, the whole strip for +X).
pub open spec fn raise_planes(p: PlaneView, bb: int, l: int, orient: u8, first: bool, last: bool, night: bool) -> PlaneView {
    if orient > 1 {
        p
    } else {
        let along_x = orient == 0;
        let p1 = if !first { p } else if along_x { stamp_x_view(p, bb, l) } else { stamp_y_view(p, bb, l) };
        let cells = interior(bb, l, along_x);
        let p2 = fold_op(p1, cells, RiserOp::Inc);
        let p3 = if p.ce.len() != 0 { fold_op(p2, cells, RiserOp::Seal) } else { p2 };
        if !last {
            p3
        } else if along_x {
            fold_cells(p3, line(bb, true, -1, l + 1), shade_fn(night))
        } else {
            fold_cells(p3, line(bb, true, 0, 3), shade_fn(night))
        }
    }
}

/// The restore strip: rows (or columns) 3..l-4, four cells across.
pub open spec fn restore_cells(bb: int, l: int, along_x: bool) -> Seq<int> {
    if along_x {
        grid(bstep(bb, 3, 1), l - 7, 1, 1, 0, 4, 2, -1)
    } else {
        grid(bstep(bb, 1, 3), l - 7, 2, 1, 0, 4, 1, -1)
    }
}

/// The lower's final-tick restore: copy the flank terrain back over the
/// strip, then the cave invariant over it (off-cave the bit3 clear of
/// the 4-cell end cap), then the dirty block.
pub open spec fn restore_view(p: PlaneView, bb: int, l: int, along_x: bool) -> PlaneView {
    let cells = restore_cells(bb, l, along_x);
    let op = RiserOp::Copy { bx: (bb % 256) as u8, by: (bb / 256) as u8, along_x, half: (l / 2) as i32 };
    let p1 = fold_op(p, cells, op);
    let p2 = if p.ce.len() != 0 {
        fold_op(p1, cells, RiserOp::Seal)
    } else {
        fold_op(p1, restore_cells(bb, 8, along_x), RiserOp::Clear3)
    };
    if along_x {
        fold_op(p2, dirty_x_cells(bb, l), RiserOp::Dirty)
    } else {
        fold_op(p2, dirty_y_cells(bb, l), RiserOp::Dirty)
    }
}

/// One animated lower tick on the planes: the interior sinks toward
/// its flanks; when the progress runs out the strip is restored.
pub open spec fn lower_planes(p: PlaneView, bb: int, l: int, orient: u8, done: bool) -> PlaneView {
    if orient > 1 {
        p
    } else {
        let along_x = orient == 0;
        let op = RiserOp::Lower { bx: (bb % 256) as u8, by: (bb / 256) as u8, along_x };
        let p1 = fold_op(p, interior(bb, l, along_x), op);
        if done { restore_view(p1, bb, l, along_x) } else { p1 }
    }
}

/// The riser tick's effect on (planes, entity, terrain changed, loop
/// sound 47 raised), from the riser's cell `c` and the map's day flag.
pub open spec fn riser_spec(p: PlaneView, e: Ent, c: int, night: bool) -> (PlaneView, Ent, bool, bool) {
    let orient = e.f71;
    if e.act_life == 0 {
        let l = e.f26 + 1;
        let q = if orient == 1 {
            build_y_view(p, bstep(c, 0, -1), l, night)
        } else if orient == 0 {
            build_x_view(p, bstep(c, -1, 0), l, night)
        } else {
            p
        };
        (q, Ent { f26: l as i16, f44: 48, act_life: 3, ..e }, orient <= 1, false)
    } else if e.act_life == 1 {
        if e.f44 >= 48 {
            (p, Ent { act_life: 3, ..e }, false, false)
        } else {
            let l = e.f26 as int;
            let bb = if orient == 1 { bstep(c, 0, -1) } else { wstep(c, -1) };
            let f44 = e.f44 + 1;
            let q = raise_planes(p, bb, l, orient, e.f44 == 0, f44 >= 48, night);
            (q, Ent { f44: f44 as u16, ..e }, orient <= 1, true)
        }
    } else if e.act_life == 2 {
        if e.f44 == 0 {
            (p, Ent { act_life: 4, ..e }, false, false)
        } else {
            let l = e.f26 as int;
            let bb = if orient == 1 { bstep(c, 0, -1) } else { wstep(c, -1) };
            let f44 = e.f44 - 1;
            let q = lower_planes(p, bb, l, orient, f44 == 0);
            (q, Ent { f44: f44 as u16, ..e }, orient <= 1, true)
        }
    } else {
        (p, e, false, false)
    }
}

/// The riser's own fields after one tick (the entity part of
/// [`riser_spec`], which does not depend on the terrain).
pub open spec fn riser_ent_step(e: Ent) -> Ent {
    if e.act_life == 0 {
        Ent { f26: (e.f26 + 1) as i16, f44: 48, act_life: 3, ..e }
    } else if e.act_life == 1 {
        if e.f44 >= 48 { Ent { act_life: 3, ..e } } else { Ent { f44: (e.f44 + 1) as u16, ..e } }
    } else if e.act_life == 2 {
        if e.f44 == 0 { Ent { act_life: 4, ..e } } else { Ent { f44: (e.f44 - 1) as u16, ..e } }
    } else {
        e
    }
}

/// The riser's own fields after `n` ticks.
pub open spec fn riser_ent_ticks(e: Ent, n: nat) -> Ent
    decreases n,
{
    if n == 0 { e } else { riser_ent_ticks(riser_ent_step(e), (n - 1) as nat) }
}

/// The entity part of a riser tick is [`riser_ent_step`], whatever the
/// terrain.
pub proof fn lemma_riser_ent_step(p: PlaneView, e: Ent, c: int, night: bool)
    ensures
        riser_spec(p, e, c, night).1 == riser_ent_step(e),
{
}

/// Outside its three active phases (life 0, 1, 2) a riser tick changes
/// nothing: no terrain, no field, no sound.
pub proof fn riser_idle_is_inert(p: PlaneView, e: Ent, c: int, night: bool)
    requires
        !(0 <= e.act_life <= 2),
    ensures
        riser_spec(p, e, c, night) == (p, e, false, false),
{
}

/// An animated raise at progress `k <= 48` runs `48 - k` more raise
/// ticks (still life 1, progress 48), and the next tick settles it as
/// built (life 3); from then on it is idle.
pub proof fn raise_settles_built(e: Ent)
    requires
        e.act_life == 1,
        e.f44 <= 48,
    ensures
        riser_ent_ticks(e, (48 - e.f44) as nat) == (Ent { f44: 48, ..e }),
        riser_ent_ticks(e, (49 - e.f44) as nat) == (Ent { f44: 48, act_life: 3, ..e }),
    decreases 48 - e.f44,
{
    if e.f44 < 48 {
        raise_settles_built(riser_ent_step(e));
        assert(riser_ent_step(e) == Ent { f44: (e.f44 + 1) as u16, ..e });
    } else {
        assert(riser_ent_ticks(e, 1) == riser_ent_ticks(riser_ent_step(e), 0));
    }
}

/// An animated lower at progress `k` runs `k` lowering ticks (still
/// life 2, progress 0), and the next tick settles it as removed (life
/// 4).
pub proof fn lower_settles_removed(e: Ent)
    requires
        e.act_life == 2,
    ensures
        riser_ent_ticks(e, e.f44 as nat) == (Ent { f44: 0, ..e }),
        riser_ent_ticks(e, (e.f44 + 1) as nat) == (Ent { f44: 0, act_life: 4, ..e }),
    decreases e.f44,
{
    if e.f44 > 0 {
        lower_settles_removed(riser_ent_step(e));
        assert(riser_ent_step(e) == Ent { f44: (e.f44 - 1) as u16, ..e });
    } else {
        assert(riser_ent_ticks(e, 1) == riser_ent_ticks(riser_ent_step(e), 0));
    }
}

/// Every cell of a stepped rectangle is a cell of the plane.
pub proof fn lemma_grid_in_plane(start: int, nc: int, ck: int, cs: int, roff: int, nr: int, rk: int, rs: int)
    ensures
        forall|k: int| 0 <= k < grid(start, nc, ck, cs, roff, nr, rk, rs).len()
            ==> 0 <= #[trigger] grid(start, nc, ck, cs, roff, nr, rk, rs)[k] < PLANE_CELLS,
{
}

/// A pass of riser ops over cells of the plane keeps the plane sizes.
pub proof fn lemma_fold_op_sizes(p: PlaneView, cells: Seq<int>, op: RiserOp)
    requires
        p.wf(),
        forall|k: int| 0 <= k < cells.len() ==> 0 <= #[trigger] cells[k] < PLANE_CELLS,
    ensures
        ({
            let q = fold_op(p, cells, op);
            &&& q.h.len() == p.h.len()
            &&& q.ty.len() == p.ty.len()
            &&& q.sh.len() == p.sh.len()
            &&& q.an.len() == p.an.len()
            &&& q.ce.len() == p.ce.len()
        }),
    decreases cells.len(),
{
    if cells.len() > 0 {
        let init = cells.drop_last();
        assert forall|k: int| 0 <= k < init.len() implies 0 <= #[trigger] init[k] < PLANE_CELLS by {
            assert(init[k] == cells[k]);
        }
        lemma_fold_op_sizes(p, init, op);
        let q = fold_op(p, init, op);
        assert(cells[cells.len() - 1] == cells.last());
        assert(fold_op(p, cells, op) == op_view(op, q, cells.last()));
    }
}

/// The cave sync pass leaves every visited cell whose floor is above 0
/// with its seal in agreement, and moves no floor.
pub proof fn lemma_sync_pass_seals(p: PlaneView, cells: Seq<int>)
    requires
        p.wf(),
        p.ce.len() == PLANE_CELLS,
        forall|k: int| 0 <= k < cells.len() ==> 0 <= #[trigger] cells[k] < PLANE_CELLS,
    ensures
        ({
            let q = fold_op(p, cells, RiserOp::Sync);
            &&& q.wf()
            &&& q.ce.len() == PLANE_CELLS
            &&& q.h == p.h
            &&& forall|k: int| 0 <= k < cells.len() && q.h[cells[k]] > 0 ==> seal_synced(q, #[trigger] cells[k])
        }),
    decreases cells.len(),
{
    if cells.len() > 0 {
        let init = cells.drop_last();
        assert forall|k: int| 0 <= k < init.len() implies 0 <= #[trigger] init[k] < PLANE_CELLS by {
            assert(init[k] == cells[k]);
        }
        lemma_sync_pass_seals(p, init);
        let q = fold_op(p, init, RiserOp::Sync);
        let t = cells.last();
        assert(cells[cells.len() - 1] == t);
        let q2 = seal_view(q, t);
        assert(fold_op(p, cells, RiserOp::Sync) == q2);
        let a = q.an[t];
        lemma_bit3(a);
        assert(q.h[t] > 0 ==> dec_wrap(q.h[t]) < q.h[t]);
        assert forall|k: int| 0 <= k < cells.len() && q2.h[cells[k]] > 0 implies seal_synced(q2, #[trigger] cells[k]) by {
            if cells[k] != t {
                assert(cells[k] == init[k]);
                assert(seal_synced(q, init[k]));
            }
        }
    }
}

/// A shading pass over cells of the plane touches only the shading
/// plane.
pub proof fn lemma_shade_pass_keeps(p: PlaneView, cells: Seq<int>, night: bool)
    requires
        p.sh.len() == PLANE_CELLS,
        forall|k: int| 0 <= k < cells.len() ==> 0 <= #[trigger] cells[k] < PLANE_CELLS,
    ensures
        ({
            let q = fold_cells(p, cells, shade_fn(night));
            &&& q.h == p.h
            &&& q.ty == p.ty
            &&& q.an == p.an
            &&& q.ce == p.ce
            &&& q.sh.len() == p.sh.len()
        }),
    decreases cells.len(),
{
    if cells.len() > 0 {
        let init = cells.drop_last();
        assert forall|k: int| 0 <= k < init.len() implies 0 <= #[trigger] init[k] < PLANE_CELLS by {
            assert(init[k] == cells[k]);
        }
        assert(cells[cells.len() - 1] == cells.last());
        lemma_shade_pass_keeps(p, init, night);
        let q = fold_cells(p, cells.drop_last(), shade_fn(night));
        let q2 = shade_at(q, cells.last(), night);
        assert(fold_cells(p, cells, shade_fn(night)) == q2);
        assert(q2.h == q.h);
        assert(q2.h == p.h);
        assert(q2.sh.len() == p.sh.len());
    } else {
        assert(fold_cells(p, cells, shade_fn(night)) == p);
    }
}

/// A dirty pass over cells of the plane moves no floor or ceiling and
/// keeps every seal bit.
pub proof fn lemma_dirty_pass_keeps_seal(p: PlaneView, cells: Seq<int>)
    requires
        p.an.len() == PLANE_CELLS,
        forall|k: int| 0 <= k < cells.len() ==> 0 <= #[trigger] cells[k] < PLANE_CELLS,
    ensures
        ({
            let q = fold_op(p, cells, RiserOp::Dirty);
            &&& q.h == p.h
            &&& q.ce == p.ce
            &&& q.an.len() == p.an.len()
            &&& forall|t: int| 0 <= t < p.an.len() ==> (#[trigger] q.an[t] & 8u8 != 0) == (p.an[t] & 8u8 != 0)
        }),
    decreases cells.len(),
{
    if cells.len() > 0 {
        let init = cells.drop_last();
        assert forall|k: int| 0 <= k < init.len() implies 0 <= #[trigger] init[k] < PLANE_CELLS by {
            assert(init[k] == cells[k]);
        }
        assert(cells[cells.len() - 1] == cells.last());
        lemma_dirty_pass_keeps_seal(p, init);
        let q = fold_op(p, cells.drop_last(), RiserOp::Dirty);
        let t = cells.last();
        assert(fold_op(p, cells, RiserOp::Dirty) == dirty_view(q, t));
        if 0 <= t < q.an.len() {
            let a = q.an[t];
            lemma_bit3(a);
        }
    }
}

/// On a cave, an instant build leaves the strip a sealed solid: every
/// cell of its sync block whose floor is above 0 has its seal in
/// agreement with its planes (bit3 set exactly when the ceiling does not
/// clear the floor).
pub proof fn build_seals_strip_on_caves(p: PlaneView, bb: int, l: int, night: bool, along_x: bool)
    requires
        p.wf(),
        p.ce.len() == PLANE_CELLS,
    ensures
        ({
            let cells = if along_x {
                grid(wstep(bb, -1), l + 2, 0, 1, 256, 4, 2, -1)
            } else {
                grid(wstep(bb, 1), 4, 1, -1, -256, l + 2, 2, 1)
            };
            let q = if along_x { build_x_view(p, bb, l, night) } else { build_y_view(p, bb, l, night) };
            forall|k: int| 0 <= k < cells.len() && q.h[cells[k]] > 0 ==> seal_synced(q, #[trigger] cells[k])
        }),
{
    let cells = if along_x {
        grid(wstep(bb, -1), l + 2, 0, 1, 256, 4, 2, -1)
    } else {
        grid(wstep(bb, 1), 4, 1, -1, -256, l + 2, 2, 1)
    };
    let (c1, c2, o1, o2) = if along_x {
        (grid(bb, l, 0, 1, 0, 2, 2, -1), grid(wstep(bb, -1), l + 1, 0, 1, 0, 3, 2, -1), RiserOp::RaiseX, RiserOp::Stamp)
    } else {
        (grid(bb, 2, 0, -1, 0, l, 2, 1), grid(bb, 3, 0, -1, -256, l + 1, 2, 1), RiserOp::RaiseY, RiserOp::Stamp)
    };
    let sl = if along_x { line(bb, true, -1, l + 1) } else { line(bb, false, -1, l + 1) };
    let dc = if along_x { dirty_x_cells(bb, l) } else { dirty_y_cells(bb, l) };
    if along_x {
        lemma_grid_in_plane(bb, l, 0, 1, 0, 2, 2, -1);
        lemma_grid_in_plane(wstep(bb, -1), l + 1, 0, 1, 0, 3, 2, -1);
        lemma_grid_in_plane(wstep(bb, -3), l + 6, 0, 1, 768, 9, 2, -1);
    } else {
        lemma_grid_in_plane(bb, 2, 0, -1, 0, l, 2, 1);
        lemma_grid_in_plane(bb, 3, 0, -1, -256, l + 1, 2, 1);
        lemma_grid_in_plane(wstep(bb, -3), 9, 0, 1, -768, l + 6, 2, 1);
    }
    assert forall|k: int| 0 <= k < sl.len() implies 0 <= #[trigger] sl[k] < PLANE_CELLS by {
    }
    let p1 = fold_op(p, c1, o1);
    lemma_fold_op_sizes(p, c1, o1);
    let p2 = fold_op(p1, c2, o2);
    lemma_fold_op_sizes(p1, c2, o2);
    if along_x {
        lemma_grid_in_plane(wstep(bb, -1), l + 2, 0, 1, 256, 4, 2, -1);
    } else {
        lemma_grid_in_plane(wstep(bb, 1), 4, 1, -1, -256, l + 2, 2, 1);
    }
    lemma_sync_pass_seals(p2, cells);
    let p3 = fold_op(p2, cells, RiserOp::Sync);
    lemma_shade_pass_keeps(p3, sl, night);
    let p4 = fold_cells(p3, sl, shade_fn(night));
    lemma_dirty_pass_keeps_seal(p4, dc);
    let q = fold_op(p4, dc, RiserOp::Dirty);
    assert(q == if along_x { build_x_view(p, bb, l, night) } else { build_y_view(p, bb, l, night) });
    assert forall|k: int| 0 <= k < cells.len() && q.h[cells[k]] > 0 implies seal_synced(q, #[trigger] cells[k]) by {
        assert(seal_synced(p3, cells[k]));
    }
}

/// The first class-14 model 1 or 2 entity of a cell chain.
pub open spec fn first_riser(ents: Seq<Ent>, c: Seq<int>, k: int) -> Option<int>
    decreases c.len() - k,
{
    if k >= c.len() || k < 0 {
        None
    } else if ents[c[k]].class64 == 14 && (ents[c[k]].model65 == 1 || ents[c[k]].model65 == 2) {
        Some(c[k])
    } else {
        first_riser(ents, c, k + 1)
    }
}

/// The riser found at engine position (x, y): the map cell of `(pos -
/// 128) >> 8`, then its chain.
pub open spec fn find_riser_spec(g: Gen, x: u16, y: u16) -> Option<int> {
    let cx = ((x as int + 65536 - 128) % 65536) / 256;
    let cy = ((y as int + 65536 - 128) % 65536) / 256;
    let start = g.map_entity@[tile_spec(cx, cy)] as int;
    first_riser(g.ent@, chain(g.ent@, start, g.ent@.len()), 0)
}

/// The 16-bit cell step.
fn w(t: usize, d: i32) -> (r: usize)
    requires
        t < 65536,
    ensures
        r as int == wstep(t as int, d as int),
        r < 65536,
{
    assert((d as u16) as int == d % 65536) by (bit_vector);
    let r = (t as u16).wrapping_add(d as u16) as usize;
    proof {
        lemma_wstep(t as int, 0, d as int);
        vstd::arithmetic::div_mod::lemma_add_mod_noop(t as int, d as int, 65536);
        vstd::arithmetic::div_mod::lemma_small_mod(t as nat, 65536);
    }
    r
}

/// The byte-axis cell step.
fn b(t: usize, dx: i32, dy: i32) -> (r: usize)
    requires
        t < 65536,
    ensures
        r as int == bstep(t as int, dx as int, dy as int),
        r < 65536,
{
    assert((dx as u8) as int == dx % 256) by (bit_vector);
    assert((dy as u8) as int == dy % 256) by (bit_vector);
    assert(t < 65536 ==> (t as u8) as usize == t % 256) by (bit_vector);
    assert(t < 65536 ==> ((t >> 8usize) as u8) as usize == t / 256) by (bit_vector);
    let x = (t as u8).wrapping_add(dx as u8);
    let y = ((t >> 8) as u8).wrapping_add(dy as u8);
    proof {
        vstd::arithmetic::div_mod::lemma_add_mod_noop(t as int % 256, dx as int, 256);
        vstd::arithmetic::div_mod::lemma_mod_twice(t as int % 256, 256);
        vstd::arithmetic::div_mod::lemma_add_mod_noop(t as int / 256, dy as int, 256);
        assert(t as int / 256 < 256);
        vstd::arithmetic::div_mod::lemma_small_mod((t as int / 256) as nat, 256);
    }
    tile(x, y)
}

/// The 28..=47 shade fold: `> 40` folds to `(s & 7) + 40`, below 28 to
/// `(s & 3) + 28`.
pub open spec fn fold_spec(s: i32) -> u8 {
    (if s >= 28 {
        if s > 40 { (s & 7i32) + 40 } else { s as int }
    } else {
        (s & 3i32) + 28
    }) as u8
}

fn fold_shade(s: i32) -> (r: u8)
    requires
        -1000 <= s <= 1000,
    ensures
        r == fold_spec(s),
        28 <= r <= 47,
{
    assert(0 <= (s & 7i32) < 8) by (bit_vector);
    assert(0 <= (s & 3i32) < 4) by (bit_vector);
    (if s >= 28 {
        if s > 40 { (s & 7) + 40 } else { s }
    } else {
        (s & 3) + 28
    }) as u8
}

impl Gen {
    /// The riser's rounded cell: `(pos + 128) >> 8` per axis.
    pub fn riser_cell(&self, i: usize) -> (r: usize)
        requires
            i < self.ent@.len(),
        ensures
            r as int == tile_spec(center_spec(self.ent@[i as int].x), center_spec(self.ent@[i as int].y)),
            r < 65536,
    {
        tile(center_byte(self.ent[i].x), center_byte(self.ent[i].y))
    }

    /// The day law: non-Day maps invert a shade as `64 - s` (byte
    /// arithmetic, wrapping below 0).
    pub fn day_shade(&self, s: u8) -> (r: u8)
        ensures
            r == if self.mc2_night_shade { vstd::wrapping::u8_specs::wrapping_sub(64, s) } else { s },
            28 <= s <= 47 ==> r == if self.mc2_night_shade { (64 - s) as u8 } else { s },
    {
        if self.mc2_night_shade {
            64u8.wrapping_sub(s)
        } else {
            s
        }
    }

    /// The +48 raise at `t` against neighbour `nb`.
    fn riser_raise_cell(&mut self, t: usize, nb: usize)
        requires
            old(self).wf(),
            t < PLANE_CELLS,
            nb < PLANE_CELLS,
        ensures
            final(self).wf(),
            final(self).t@ == raise_view(old(self).t@, t as int, nb as int),
            old(self).frame_planes(final(self)),
    {
        let ghost p = self.t@;
        let h = self.t.height[t];
        let d = h as i32 - self.t.height[nb] as i32;
        let ad = if d < 0 { -d } else { d };
        if self.t.tile_type[t] != 8 || ad > 30 {
            self.t.height.set(t, h.wrapping_add(48));
            assert(self.t@.h =~= p.h.update(t as int, ((p.h[t as int] + 48) % 256) as u8));
        }
    }

    /// The lowering step at `t` toward its flank mean.
    fn riser_lower_cell(&mut self, t: usize, bx: u8, by: u8, along_x: bool)
        requires
            old(self).wf(),
            t < PLANE_CELLS,
        ensures
            final(self).wf(),
            final(self).t@ == lower_view(old(self).t@, t as int, bx as int, by as int, along_x),
            old(self).frame_planes(final(self)),
    {
        let ghost p = self.t@;
        let x = (t % 256) as u8;
        let y = (t / 256) as u8;
        let (f1, f2) = if along_x {
            (tile(x, by.wrapping_sub(2)), tile(x, by.wrapping_add(1)))
        } else {
            (tile(bx.wrapping_sub(2), y), tile(bx.wrapping_add(1), y))
        };
        let s = self.t.height[f1] as i32 + self.t.height[f2] as i32;
        let flank = s >> 1;
        assert(0 <= s <= 510 ==> s >> 1i32 == s / 2) by (bit_vector);
        let h = self.t.height[t];
        if flank < h as i32 {
            self.t.height.set(t, h.wrapping_sub(1));
            assert(self.t@.h =~= p.h.update(t as int, (p.h[t as int] - 1) as u8));
        }
    }

    /// The restore copy at `t` from its flank source.
    fn riser_copy_cell(&mut self, t: usize, bx: u8, by: u8, along_x: bool, half: i32)
        requires
            old(self).wf(),
            t < PLANE_CELLS,
        ensures
            final(self).wf(),
            final(self).t@ == copy_view(old(self).t@, t as int, bx as int, by as int, along_x, half as int),
            old(self).frame_planes(final(self)),
    {
        let ghost p = self.t@;
        let x = (t % 256) as u8;
        let y = (t / 256) as u8;
        let mut src = if along_x { tile(x, by.wrapping_add(2)) } else { tile(bx.wrapping_add(2), y) };
        if self.t.tile_type[src] == 8 {
            src = if along_x { w(src, half) } else { b(src, 0, half) };
        }
        assert(src as int == copy_src(p, t as int, bx as int, by as int, along_x, half as int));
        let ty = self.t.tile_type[src];
        let an = self.t.angle[src];
        self.t.tile_type.set(t, ty);
        self.t.angle.set(t, an | 0x80);
        self.t.shading.set(t, 32);
        assert(self.t@.ty =~= p.ty.update(t as int, ty));
        assert(self.t@.an =~= p.an.update(t as int, an | 0x80u8));
        assert(self.t@.sh =~= p.sh.update(t as int, 32u8));
    }

    /// One riser op at one cell.
    fn riser_apply(&mut self, t: usize, op: RiserOp)
        requires
            old(self).wf(),
            t < PLANE_CELLS,
        ensures
            final(self).wf(),
            final(self).t@ == op_view(op, old(self).t@, t as int),
            old(self).frame_planes(final(self)),
    {
        let ghost p = self.t@;
        match op {
            RiserOp::RaiseY => {
                let nb = b(t, 0, 1);
                self.riser_raise_cell(t, nb);
            },
            RiserOp::RaiseX => {
                let nb = w(t, 1);
                self.riser_raise_cell(t, nb);
            },
            RiserOp::Stamp => {
                self.t.tile_type.set(t, 8);
                self.t.angle.set(t, 1);
                assert(self.t@.ty =~= p.ty.update(t as int, 8u8));
                assert(self.t@.an =~= p.an.update(t as int, 1u8));
            },
            RiserOp::Sync => {
                if self.t.ceiling.len() != 0 {
                    self.cave_seal_fixup(t);
                } else {
                    let a = self.t.angle[t];
                    self.t.angle.set(t, a & 0xF7);
                    assert(self.t@.an =~= p.an.update(t as int, a & 0xF7u8));
                }
            },
            RiserOp::Clear3 => {
                let a = self.t.angle[t];
                self.t.angle.set(t, a & 0xF7);
                assert(self.t@.an =~= p.an.update(t as int, a & 0xF7u8));
            },
            RiserOp::Dirty => {
                let a = self.t.angle[t];
                self.t.angle.set(t, a | 0x80);
                assert(self.t@.an =~= p.an.update(t as int, a | 0x80u8));
            },
            RiserOp::Inc => {
                let h = self.t.height[t];
                self.t.height.set(t, h.wrapping_add(1));
                assert(self.t@.h =~= p.h.update(t as int, ((p.h[t as int] + 1) % 256) as u8));
            },
            RiserOp::Seal => {
                self.cave_seal_fixup(t);
            },
            RiserOp::Lower { bx, by, along_x } => {
                self.riser_lower_cell(t, bx, by, along_x);
            },
            RiserOp::Copy { bx, by, along_x, half } => {
                self.riser_copy_cell(t, bx, by, along_x, half);
            },
        }
    }

    /// Shade `count` cells of a line from `bb` (byte-stepped along x or
    /// y, the first at offset `first`) from their NW and SE neighbours.
    #[verifier::spinoff_prover]
    #[verifier::rlimit(30)]
    fn riser_shade_run(&mut self, bb: usize, along_x: bool, first: i32, count: i32)
        requires
            old(self).wf(),
            bb < 65536,
            -2 <= first <= 0,
            count <= 40000,
        ensures
            final(self).wf(),
            final(self).t@ == fold_cells(old(self).t@, line(bb as int, along_x, first as int, count as int), shade_fn(old(self).mc2_night_shade)),
            old(self).frame_planes(final(self)),
    {
        let ghost cells = line(bb as int, along_x, first as int, count as int);
        let ghost p0 = self.t@;
        let ghost night = self.mc2_night_shade;
        let mut k: i32 = 0;
        while k < count
            invariant
                self.wf(),
                old(self).frame_planes(self),
                p0 == old(self).t@,
                night == old(self).mc2_night_shade,
                bb < 65536,
                -2 <= first <= 0,
                count <= 40000,
                0 <= k,
                k <= count || k == 0,
                cells == line(bb as int, along_x, first as int, count as int),
                self.t@ == fold_cells(p0, cells.take(k as int), shade_fn(night)),
            decreases count - k,
        {
            let o = first + k;
            let tgt = if along_x { b(bb, o, 0) } else { b(bb, 0, o) };
            proof {
                assert(cells[k as int] == tgt as int);
                assert(cells.take(k + 1).drop_last() =~= cells.take(k as int));
            }
            self.riser_shade_cell(tgt);
            k += 1;
        }
        proof {
            assert(cells.take(k as int) =~= cells);
        }
    }

    /// Shade cell `t` from its NW and SE neighbours: see [`shade_at`].
    fn riser_shade_cell(&mut self, t: usize)
        requires
            old(self).wf(),
            t < 65536,
        ensures
            final(self).wf(),
            final(self).t@ == shade_at(old(self).t@, t as int, old(self).mc2_night_shade),
            old(self).frame_planes(final(self)),
    {
        let hi = self.t.height[b(t, -1, -1)] as i32;
        let lo = self.t.height[b(t, 1, 1)] as i32;
        let s32 = hi - lo + 32;
        assert(0 <= (s32 & 7i32) < 8 && 0 <= (s32 & 3i32) < 4) by (bit_vector);
        let v = self.day_shade(fold_shade(s32));
        assert(v == shade_spec(hi as int, lo as int, self.mc2_night_shade));
        let ghost before = self.t@;
        self.t.shading.set(t, v);
        proof {
            assert(self.t@.sh =~= before.sh.update(t as int, shade_spec(hi as int, lo as int, self.mc2_night_shade)));
        }
    }

    /// The dirty block of a +Y strip.
    fn riser_dirty_y(&mut self, bb: usize, l: i32)
        requires
            old(self).wf(),
            bb < 65536,
            -40000 <= l <= 32768,
        ensures
            final(self).wf(),
            final(self).t@ == fold_op(old(self).t@, dirty_y_cells(bb as int, l as int), RiserOp::Dirty),
            old(self).frame_planes(final(self)),
    {
        let s = w(bb, -3);
        self.riser_grid(s, 9, 0, 1, -768, l + 6, 2, 1, RiserOp::Dirty);
    }

    /// The dirty block of a +X strip.
    fn riser_dirty_x(&mut self, bb: usize, l: i32)
        requires
            old(self).wf(),
            bb < 65536,
            -40000 <= l <= 32768,
        ensures
            final(self).wf(),
            final(self).t@ == fold_op(old(self).t@, dirty_x_cells(bb as int, l as int), RiserOp::Dirty),
            old(self).frame_planes(final(self)),
    {
        let s = w(bb, -3);
        self.riser_grid(s, l + 6, 0, 1, 768, 9, 2, -1, RiserOp::Dirty);
    }

    /// The instant build of a +Y strip: see [`build_y_view`].
    fn riser_build_y(&mut self, bb: usize, l: i32)
        requires
            old(self).wf(),
            bb < 65536,
            -40000 <= l <= 32768,
        ensures
            final(self).wf(),
            final(self).t@ == build_y_view(old(self).t@, bb as int, l as int, old(self).mc2_night_shade),
            old(self).frame_planes(final(self)),
    {
        self.riser_grid(bb, 2, 0, -1, 0, l, 2, 1, RiserOp::RaiseY);
        self.riser_grid(bb, 3, 0, -1, -256, l + 1, 2, 1, RiserOp::Stamp);
        let s = w(bb, 1);
        let ck: u8 = if self.t.ceiling.len() != 0 { 1 } else { 0 };
        self.riser_grid(s, 4, ck, -1, -256, l + 2, 2, 1, RiserOp::Sync);
        self.riser_shade_run(bb, false, -1, l + 1);
        self.riser_dirty_y(bb, l);
    }

    /// The instant build of a +X strip: see [`build_x_view`].
    fn riser_build_x(&mut self, bb: usize, l: i32)
        requires
            old(self).wf(),
            bb < 65536,
            -40000 <= l <= 32768,
        ensures
            final(self).wf(),
            final(self).t@ == build_x_view(old(self).t@, bb as int, l as int, old(self).mc2_night_shade),
            old(self).frame_planes(final(self)),
    {
        self.riser_grid(bb, l, 0, 1, 0, 2, 2, -1, RiserOp::RaiseX);
        let s = w(bb, -1);
        self.riser_grid(s, l + 1, 0, 1, 0, 3, 2, -1, RiserOp::Stamp);
        self.riser_grid(s, l + 2, 0, 1, 256, 4, 2, -1, RiserOp::Sync);
        self.riser_shade_run(bb, true, -1, l + 1);
        self.riser_dirty_x(bb, l);
    }

    /// The raise's first-tick stamp of a +Y strip: see [`stamp_y_view`].
    fn riser_stamp_y(&mut self, bb: usize, l: i32)
        requires
            old(self).wf(),
            bb < 65536,
            -32768 <= l <= 32767,
        ensures
            final(self).wf(),
            final(self).t@ == stamp_y_view(old(self).t@, bb as int, l as int),
            old(self).frame_planes(final(self)),
    {
        self.riser_grid(bb, 3, 0, -1, 512, l - 5, 2, 1, RiserOp::Stamp);
        if self.t.ceiling.len() == 0 {
            let s = w(bb, 1);
            self.riser_grid(s, 4, 0, -1, 512, l - 4, 2, 1, RiserOp::Clear3);
        }
        self.riser_dirty_y(bb, l);
    }

    /// The raise's first-tick stamp of a +X strip: see [`stamp_x_view`].
    fn riser_stamp_x(&mut self, bb: usize, l: i32)
        requires
            old(self).wf(),
            bb < 65536,
            -32768 <= l <= 32767,
        ensures
            final(self).wf(),
            final(self).t@ == stamp_x_view(old(self).t@, bb as int, l as int),
            old(self).frame_planes(final(self)),
    {
        let s = w(bb, 2);
        self.riser_grid(s, l - 5, 0, 1, 0, 3, 2, -1, RiserOp::Stamp);
        if self.t.ceiling.len() == 0 {
            self.riser_grid(s, l - 4, 0, 1, 256, 4, 2, -1, RiserOp::Clear3);
        }
        self.riser_dirty_x(bb, l);
    }

    /// One op over the strip interior.
    fn riser_interior(&mut self, bb: usize, l: i32, along_x: bool, op: RiserOp)
        requires
            old(self).wf(),
            bb < 65536,
            -32768 <= l <= 32767,
        ensures
            final(self).wf(),
            final(self).t@ == fold_op(old(self).t@, interior(bb as int, l as int, along_x), op),
            old(self).frame_planes(final(self)),
    {
        if along_x {
            let s = b(bb, 3, 0);
            self.riser_grid(s, l - 6, 1, 1, 0, 2, 2, -1, op);
        } else {
            let s = b(bb, 0, 3);
            self.riser_grid(s, l - 6, 2, 1, 0, 2, 1, -1, op);
        }
    }

    /// The animated raise's planes: see [`raise_planes`].
    fn riser_raise_planes(&mut self, bb: usize, l: i32, orient: u8, first: bool, last: bool)
        requires
            old(self).wf(),
            bb < 65536,
            -32768 <= l <= 32767,
        ensures
            final(self).wf(),
            final(self).t@ == raise_planes(old(self).t@, bb as int, l as int, orient, first, last, old(self).mc2_night_shade),
            old(self).frame_planes(final(self)),
    {
        if orient > 1 {
            return;
        }
        let along_x = orient == 0;
        if first {
            if along_x {
                self.riser_stamp_x(bb, l);
            } else {
                self.riser_stamp_y(bb, l);
            }
        }
        self.riser_interior(bb, l, along_x, RiserOp::Inc);
        if self.t.ceiling.len() != 0 {
            self.riser_interior(bb, l, along_x, RiserOp::Seal);
        }
        if last {
            if along_x {
                self.riser_shade_run(bb, true, -1, l + 1);
            } else {
                self.riser_shade_run(bb, true, 0, 3);
            }
        }
    }

    /// The lower's final-tick restore: see [`restore_view`].
    fn riser_restore(&mut self, bb: usize, l: i32, along_x: bool)
        requires
            old(self).wf(),
            bb < 65536,
            -32768 <= l <= 32767,
        ensures
            final(self).wf(),
            final(self).t@ == restore_view(old(self).t@, bb as int, l as int, along_x),
            old(self).frame_planes(final(self)),
    {
        let bx = (bb % 256) as u8;
        let by = (bb / 256) as u8;
        let half = l >> 1;
        assert(half == l / 2) by (bit_vector)
            requires
                half == l >> 1i32,
        ;
        let op = RiserOp::Copy { bx, by, along_x, half };
        let s = if along_x { b(bb, 3, 1) } else { b(bb, 1, 3) };
        let (ok, os) = if along_x { (1u8, 2u8) } else { (2u8, 1u8) };
        self.riser_grid(s, l - 7, ok, 1, 0, 4, os, -1, op);
        if self.t.ceiling.len() != 0 {
            self.riser_grid(s, l - 7, ok, 1, 0, 4, os, -1, RiserOp::Seal);
        } else {
            self.riser_grid(s, 1, ok, 1, 0, 4, os, -1, RiserOp::Clear3);
        }
        if along_x {
            self.riser_dirty_x(bb, l);
        } else {
            self.riser_dirty_y(bb, l);
        }
    }

    /// The animated lower's planes: see [`lower_planes`].
    fn riser_lower_planes(&mut self, bb: usize, l: i32, orient: u8, done: bool)
        requires
            old(self).wf(),
            bb < 65536,
            -32768 <= l <= 32767,
        ensures
            final(self).wf(),
            final(self).t@ == lower_planes(old(self).t@, bb as int, l as int, orient, done),
            old(self).frame_planes(final(self)),
    {
        if orient > 1 {
            return;
        }
        let along_x = orient == 0;
        let op = RiserOp::Lower { bx: (bb % 256) as u8, by: (bb / 256) as u8, along_x };
        self.riser_interior(bb, l, along_x, op);
        if done {
            self.riser_restore(bb, l, along_x);
        }
    }

    /// Life 0, the instant build: length +1, the one-shot build for
    /// orientations 0/1, then progress 48 and life 3.
    fn riser_instant(&mut self, i: usize) -> (changed: bool)
        requires
            old(self).wf(),
            i < old(self).ent@.len(),
            old(self).ent@[i as int].act_life == 0,
            old(self).ent@[i as int].f26 < i16::MAX,
        ensures
            final(self).wf(),
            old(self).regs_eq(final(self)),
            final(self).sounds == old(self).sounds,
            ({
                let e = old(self).ent@[i as int];
                let (q, e2, ch, snd) = riser_spec(old(self).t@, e, tile_spec(center_spec(e.x), center_spec(e.y)), old(self).mc2_night_shade);
                &&& final(self).t@ == q
                &&& final(self).ent@ == old(self).ent@.update(i as int, e2)
                &&& changed == ch
            }),
    {
        let mut e = self.ent[i];
        e.f26 = e.f26 + 1;
        let l = e.f26 as i32;
        let orient = e.f71;
        let c = self.riser_cell(i);
        if orient == 1 {
            let bb = b(c, 0, -1);
            self.riser_build_y(bb, l);
        } else if orient == 0 {
            let bb = b(c, -1, 0);
            self.riser_build_x(bb, l);
        }
        e.f44 = 48;
        e.act_life = 3;
        self.ent.set(i, e);
        orient <= 1
    }

    /// Life 1, the animated raise: see [`riser_spec`].
    fn riser_raise(&mut self, i: usize) -> (changed: bool)
        requires
            old(self).wf(),
            i < old(self).ent@.len(),
            old(self).ent@[i as int].act_life == 1,
        ensures
            final(self).wf(),
            old(self).regs_eq(final(self)),
            ({
                let e = old(self).ent@[i as int];
                let (q, e2, ch, snd) = riser_spec(old(self).t@, e, tile_spec(center_spec(e.x), center_spec(e.y)), old(self).mc2_night_shade);
                &&& final(self).t@ == q
                &&& final(self).ent@ == old(self).ent@.update(i as int, e2)
                &&& changed == ch
                &&& final(self).sounds@ == if snd { old(self).sounds@.push((47u8, i as u16)) } else { old(self).sounds@ }
            }),
    {
        let mut e = self.ent[i];
        if e.f44 >= 0x30 {
            e.act_life = 3;
            self.ent.set(i, e);
            return false;
        }
        self.snd(47, i);
        let l = e.f26 as i32;
        let orient = e.f71;
        let c = self.riser_cell(i);
        let bb = if orient == 1 { b(c, 0, -1) } else { w(c, -1) };
        let first = e.f44 == 0;
        e.f44 = e.f44 + 1;
        let last = e.f44 >= 0x30;
        self.riser_raise_planes(bb, l, orient, first, last);
        self.ent.set(i, e);
        orient <= 1
    }

    /// Life 2, the animated lower: see [`riser_spec`].
    fn riser_lower(&mut self, i: usize) -> (changed: bool)
        requires
            old(self).wf(),
            i < old(self).ent@.len(),
            old(self).ent@[i as int].act_life == 2,
        ensures
            final(self).wf(),
            old(self).regs_eq(final(self)),
            ({
                let e = old(self).ent@[i as int];
                let (q, e2, ch, snd) = riser_spec(old(self).t@, e, tile_spec(center_spec(e.x), center_spec(e.y)), old(self).mc2_night_shade);
                &&& final(self).t@ == q
                &&& final(self).ent@ == old(self).ent@.update(i as int, e2)
                &&& changed == ch
                &&& final(self).sounds@ == if snd { old(self).sounds@.push((47u8, i as u16)) } else { old(self).sounds@ }
            }),
    {
        let mut e = self.ent[i];
        if e.f44 == 0 {
            e.act_life = 4;
            self.ent.set(i, e);
            return false;
        }
        self.snd(47, i);
        let l = e.f26 as i32;
        let orient = e.f71;
        let c = self.riser_cell(i);
        let bb = if orient == 1 { b(c, 0, -1) } else { w(c, -1) };
        e.f44 = e.f44 - 1;
        self.riser_lower_planes(bb, l, orient, e.f44 == 0);
        self.ent.set(i, e);
        orient <= 1
    }

    /// The class-14 riser tick: life 0 instant build, 1 animated raise,
    /// 2 animated lower, anything else idle (see [`riser_spec`]).
    /// Returns whether terrain changed.
    pub fn mc2_riser_tick(&mut self, i: usize) -> (changed: bool)
        requires
            old(self).wf(),
            i < old(self).ent@.len(),
            old(self).ent@[i as int].act_life == 0 ==> old(self).ent@[i as int].f26 < i16::MAX,
        ensures
            final(self).wf(),
            old(self).regs_eq(final(self)),
            ({
                let e = old(self).ent@[i as int];
                let (q, e2, ch, snd) = riser_spec(old(self).t@, e, tile_spec(center_spec(e.x), center_spec(e.y)), old(self).mc2_night_shade);
                &&& final(self).t@ == q
                &&& final(self).ent@ == old(self).ent@.update(i as int, e2)
                &&& changed == ch
                &&& final(self).sounds@ == if snd { old(self).sounds@.push((47u8, i as u16)) } else { old(self).sounds@ }
            }),
    {
        let life = self.ent[i].act_life;
        if life == 0 {
            self.riser_instant(i)
        } else if life == 1 {
            self.riser_raise(i)
        } else if life == 2 {
            self.riser_lower(i)
        } else {
            proof {
                assert(self.ent@ =~= old(self).ent@.update(i as int, old(self).ent@[i as int]));
            }
            false
        }
    }

    /// The riser or pillar in the map cell of engine position (x, y):
    /// see [`find_riser_spec`].
    #[verifier::spinoff_prover]
    #[verifier::rlimit(30)]
    pub fn mc2_find_riser(&self, x: u16, y: u16) -> (r: Option<usize>)
        requires
            self.wf(),
        ensures
            r is None <==> find_riser_spec(*self, x, y) is None,
            r matches Some(v) ==> find_riser_spec(*self, x, y) == Some(v as int) && v < self.ent@.len(),
    {
        let xs = x.wrapping_sub(128);
        let ys = y.wrapping_sub(128);
        proof {
            crate::world::lemma_hi_byte(xs);
            crate::world::lemma_hi_byte(ys);
        }
        let t = tile((xs >> 8) as u8, (ys >> 8) as u8);
        assert(xs as int == (x as int + 65536 - 128) % 65536);
        assert(ys as int == (y as int + 65536 - 128) % 65536);
        assert(t as int == tile_spec(((x as int + 65536 - 128) % 65536) / 256, ((y as int + 65536 - 128) % 65536) / 256));
        let ghost ents = self.ent@;
        let ghost full = chain(ents, self.map_entity@[t as int] as int, ents.len());
        let n = self.ent.len();
        let mut v = self.map_entity[t] as usize;
        let mut steps: usize = 0;
        while v != 0 && steps < n
            invariant
                self.wf(),
                ents == self.ent@,
                n == ents.len(),
                steps <= n,
                v < n,
                full == chain(ents, self.map_entity@[t as int] as int, n as nat),
                t as int == tile_spec(((x as int + 65536 - 128) % 65536) / 256, ((y as int + 65536 - 128) % 65536) / 256),
                find_riser_spec(*self, x, y) == first_riser(ents, full, 0),
                steps <= full.len(),
                full.skip(steps as int) == chain(ents, v as int, (n - steps) as nat),
                first_riser(ents, full, 0) == first_riser(ents, full, steps as int),
            decreases n - steps,
        {
            proof {
                assert(chain(ents, v as int, (n - steps) as nat).len() >= 1);
                assert(full.skip(steps as int)[0] == v);
                assert(full[steps as int] == v);
            }
            let e = &self.ent[v];
            if e.class64 == 14 && (e.model65 == 1 || e.model65 == 2) {
                assert(first_riser(ents, full, steps as int) == Some(v as int));
                assert(find_riser_spec(*self, x, y) == Some(v as int));
                return Some(v);
            }
            proof {
                let rest = chain(ents, e.next20 as int, (n - steps - 1) as nat);
                assert(chain(ents, v as int, (n - steps) as nat) == seq![v as int] + rest);
                assert(full.skip(steps as int + 1) =~= full.skip(steps as int).skip(1));
                assert(full.skip(steps as int).skip(1) =~= rest);
            }
            v = e.next20 as usize;
            steps += 1;
        }
        proof {
            assert(full.skip(steps as int).len() == 0);
            assert(full.len() == steps);
        }
        None
    }

    /// The (10,63)/(10,64) trigger tick: poke the co-located riser's
    /// life (action 0x45 raises: life 1; otherwise lowers: life 2), then
    /// despawn the trigger.
    #[verifier::spinoff_prover]
    #[verifier::rlimit(30)]
    pub fn mc2_riser_trigger_tick(&mut self, i: usize)
        requires
            old(self).wf(),
            i < old(self).ent@.len(),
        ensures
            final(self).wf(),
            old(self).frame_ent(final(self)),
            ({
                let ents = old(self).ent@;
                let e = ents[i as int];
                let poked = match find_riser_spec(*old(self), e.x, e.y) {
                    Some(r) => ents.update(r, Ent { act_life: if e.tick70 == 0x45 { 1i32 } else { 2i32 }, ..ents[r] }),
                    None => ents,
                };
                final(self).ent@ == poked.update(i as int, Ent { flags: poked[i as int].flags | F_DEAD, ..poked[i as int] })
            }),
    {
        let raise = self.ent[i].tick70 == 0x45;
        let ghost ents = self.ent@;
        let ghost spec_r = find_riser_spec(*self, ents[i as int].x, ents[i as int].y);
        let found = self.mc2_find_riser(self.ent[i].x, self.ent[i].y);
        if let Some(r) = found {
            let mut er = self.ent[r];
            er.act_life = if raise { 1 } else { 2 };
            self.ent.set(r, er);
            assert(spec_r == Some(r as int));
            assert(self.ent@ == ents.update(r as int, Ent { act_life: if raise { 1i32 } else { 2i32 }, ..ents[r as int] }));
        }
        let mut e = self.ent[i];
        e.flags = e.flags | F_DEAD;
        self.ent.set(i, e);
    }

    /// One riser op over a stepped rectangle of cells: see [`grid`].
    #[verifier::spinoff_prover]
    #[verifier::rlimit(30)]
    fn riser_grid(&mut self, start: usize, nc: i32, ck: u8, cs: i32, roff: i32, nr: i32, rk: u8, rs: i32, op: RiserOp)
        requires
            old(self).wf(),
            start < 65536,
            ck <= 2,
            rk <= 2,
            -40000 <= nc <= 40000,
            -40000 <= nr <= 40000,
            -4 <= cs <= 4,
            -4 <= rs <= 4,
        ensures
            final(self).wf(),
            final(self).t@ == fold_cells(old(self).t@, grid(start as int, nc as int, ck as int, cs as int, roff as int, nr as int, rk as int, rs as int), op_fn(op)),
            old(self).frame_planes(final(self)),
    {
        let ghost g = grid(start as int, nc as int, ck as int, cs as int, roff as int, nr as int, rk as int, rs as int);
        let ghost p0 = self.t@;
        let ghost nr0: int = if nr < 0 { 0 } else { nr as int };
        let ghost nc0: int = if nc < 0 { 0 } else { nc as int };
        let mut col = start;
        let mut c: i32 = 0;
        proof {
            lemma_gpos(start as int, ck as int, 0, 0);
        }
        while c < nc
            invariant
                self.wf(),
                old(self).frame_planes(self),
                p0 == old(self).t@,
                g == grid(start as int, nc as int, ck as int, cs as int, roff as int, nr as int, rk as int, rs as int),
                start < 65536,
                ck <= 2,
                rk <= 2,
                -4 <= cs <= 4,
                -4 <= rs <= 4,
                -40000 <= nc <= 40000,
                -40000 <= nr <= 40000,
                nr0 == (if nr < 0 { 0 } else { nr as int }),
                nc0 == (if nc < 0 { 0 } else { nc as int }),
                0 <= c <= nc0,
                col < 65536,
                col as int == gpos(start as int, ck as int, cs * c),
                self.t@ == fold_cells(p0, g.take(c * nr0), op_fn(op)),
                c * nr0 <= nc0 * nr0,
            decreases nc - c,
        {
            let mut cell = w(col, roff);
            let ghost rowstart = cell as int;
            let mut r: i32 = 0;
            proof {
                lemma_gpos(rowstart, rk as int, 0, 0);
            }
            while r < nr
                invariant
                    self.wf(),
                    old(self).frame_planes(self),
                    p0 == old(self).t@,
                    g == grid(start as int, nc as int, ck as int, cs as int, roff as int, nr as int, rk as int, rs as int),
                    start < 65536,
                    ck <= 2,
                    rk <= 2,
                    -4 <= cs <= 4,
                    -4 <= rs <= 4,
                    -40000 <= nc <= 40000,
                    -40000 <= nr <= 40000,
                    nr0 == (if nr < 0 { 0 } else { nr as int }),
                    nc0 == (if nc < 0 { 0 } else { nc as int }),
                    0 <= c < nc,
                    0 <= r <= nr0,
                    col as int == gpos(start as int, ck as int, cs * c),
                    rowstart == wstep(col as int, roff as int),
                    0 <= rowstart < 65536,
                    cell < 65536,
                    cell as int == gpos(rowstart, rk as int, rs * r),
                    self.t@ == fold_cells(p0, g.take(c * nr0 + r), op_fn(op)),
                decreases nr - r,
            {
                proof {
                    let k = c * nr0 + r;
                    assert(0 <= k < nc0 * nr0) by (nonlinear_arith)
                        requires
                            0 <= c < nc0,
                            0 <= r < nr0,
                            k == c * nr0 + r,
                    ;
                    vstd::arithmetic::div_mod::lemma_fundamental_div_mod_converse(k, nr0, c as int, r as int);
                    assert(g[k] == cell as int);
                    assert(g.take(k + 1).drop_last() =~= g.take(k));
                }
                self.riser_apply(cell, op);
                proof {
                    lemma_gpos(rowstart, rk as int, rs * r, rs as int);
                    assert(rs * r + rs == rs * (r + 1)) by (nonlinear_arith);
                }
                cell = if rk == 0 {
                    w(cell, rs)
                } else if rk == 1 {
                    b(cell, rs, 0)
                } else {
                    b(cell, 0, rs)
                };
                r += 1;
            }
            proof {
                lemma_gpos(start as int, ck as int, cs * c, cs as int);
                assert(cs * c + cs == cs * (c + 1)) by (nonlinear_arith);
                assert(c * nr0 + nr0 == (c + 1) * nr0) by (nonlinear_arith);
                if nr < 0 {
                    assert(c * nr0 + 0 == (c + 1) * nr0);
                }
                assert((c + 1) * nr0 <= nc0 * nr0) by (nonlinear_arith)
                    requires
                        c + 1 <= nc0,
                        0 <= nr0,
                ;
            }
            col = if ck == 0 {
                w(col, cs)
            } else if ck == 1 {
                b(col, cs, 0)
            } else {
                b(col, 0, cs)
            };
            c += 1;
        }
        proof {
            assert(c == nc0);
            assert(g.len() == nc0 * nr0);
            assert(g.take(c * nr0) =~= g);
        }
    }
}

} // verus!
