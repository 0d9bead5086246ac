//! MC2 cave terrain machinery: the floor/ceiling invariant every cave
//! terrain writer re-runs, the box-perimeter samplers, the flight
//! barrier probes, and the (14,2) cave pillar machine.
//!
//! Cave `angle` bit3 = SEALED rock (ceiling pinned to floor-1) — the
//! opposite of its non-cave open-sea meaning.

use vstd::prelude::*;
use crate::world::{Ent, Gen, PlaneView, PLANE_CELLS, F_DEAD, lemma_hi_byte, tile, tile_spec};

verus! {

/// A floor byte minus one, wrapping at 0.
pub open spec fn dec_wrap(h: u8) -> u8 {
    if h == 0 { 255 } else { (h - 1) as u8 }
}

/// The bit3 facts of an angle byte: clearing, setting, and the dirty
/// bit leaving it alone.
pub proof fn lemma_bit3(a: u8)
    ensures
        a & !8u8 == a & 0xF7u8,
        (a & 0xF7u8) & 8u8 == 0,
        (a | 8u8) & 8u8 != 0,
        (a & 0xF7u8) & 0xF7u8 == a & 0xF7u8,
        (a | 8u8) | 8u8 == a | 8u8,
        ((a | 0x80u8) & 8u8 != 0) == (a & 8u8 != 0),
{
    assert(a & !8u8 == a & 0xF7u8 && (a & 0xF7u8) & 8u8 == 0 && (a | 8u8) & 8u8 != 0
        && (a & 0xF7u8) & 0xF7u8 == a & 0xF7u8 && (a | 8u8) | 8u8 == a | 8u8
        && ((a | 0x80u8) & 8u8 != 0) == (a & 8u8 != 0)) by (bit_vector);
}

/// The planes after the cave invariant ran at cell `t`: off-cave
/// nothing; an open cell (ceiling above floor) clears bit3; otherwise
/// the ceiling is pinned to floor-1 and bit3 set.
pub open spec fn seal_view(p: PlaneView, t: int) -> PlaneView {
    if p.ce.len() == 0 {
        p
    } else if p.ce[t] > p.h[t] {
        PlaneView { an: p.an.update(t, p.an[t] & 0xF7u8), ..p }
    } else {
        PlaneView { ce: p.ce.update(t, dec_wrap(p.h[t])), an: p.an.update(t, p.an[t] | 8u8), ..p }
    }
}

/// The bit3 sync without the ceiling pin: open cells clear bit3,
/// others set it; the ceiling is untouched.
pub open spec fn sync_view(p: PlaneView, t: int) -> PlaneView {
    if p.ce[t] > p.h[t] {
        PlaneView { an: p.an.update(t, p.an[t] & 0xF7u8), ..p }
    } else {
        PlaneView { an: p.an.update(t, p.an[t] | 8u8), ..p }
    }
}

impl Gen {
    /// The level is a cave iff the world carries a ceiling plane.
    pub fn is_cave(&self) -> (r: bool)
        ensures
            r == self.cave(),
    {
        self.t.ceiling.len() != 0
    }

    /// THE cave invariant at one cell: `ceiling > floor` = open (clear
    /// bit3), else pin `ceiling = floor - 1` and seal (set bit3). No-op
    /// off-cave.
    pub fn cave_seal_fixup(&mut self, t: usize)
        requires
            old(self).wf(),
            t < PLANE_CELLS,
        ensures
            final(self).wf(),
            final(self).t@ == seal_view(old(self).t@, t as int),
            old(self).frame_planes(final(self)),
    {
        if self.t.ceiling.len() == 0 {
            return;
        }
        let floor = self.t.height[t];
        if self.t.ceiling[t] > floor {
            let a = self.t.angle[t];
            proof {
                lemma_bit3(a);
            }
            self.t.angle.set(t, a & !8u8);
            assert(self.t.angle@ =~= old(self).t.angle@.update(t as int, a & 0xF7u8));
        } else {
            let c = floor.wrapping_sub(1);
            assert(c == dec_wrap(floor));
            self.t.ceiling.set(t, c);
            let a = self.t.angle[t];
            self.t.angle.set(t, a | 8u8);
        }
        assert(self.t@.an =~= seal_view(old(self).t@, t as int).an);
        assert(self.t@.ce =~= seal_view(old(self).t@, t as int).ce);
    }
}

/// The cells the box-perimeter walk samples, in walk order: `h` pairs
/// along the top row `oy` and the row `oy + w` (x = ox, ox+1, ...),
/// then `w` pairs down the column `ox + h` and the column `ox`
/// (y = oy, oy+1, ...). Byte coordinates wrap; `w`/`h` offsets are
/// taken mod 256 like the byte arithmetic.
pub open spec fn perimeter_cells(ox: int, oy: int, w: int, h: int) -> Seq<int> {
    Seq::new(
        (2 * h + 2 * w) as nat,
        |k: int|
            if k < 2 * h {
                if k % 2 == 0 {
                    tile_spec((ox + k / 2) % 256, oy)
                } else {
                    tile_spec((ox + k / 2) % 256, (oy + w) % 256)
                }
            } else if k % 2 == 0 {
                tile_spec((ox + h) % 256, (oy + (k - 2 * h) / 2) % 256)
            } else {
                tile_spec(ox, (oy + (k - 2 * h) / 2) % 256)
            },
    )
}

/// The running min (or max) from `init` over the plane values at
/// `cells`.
pub open spec fn fold_extreme(plane: Seq<u8>, cells: Seq<int>, init: int, min: bool) -> int
    decreases cells.len(),
{
    if cells.len() == 0 {
        init
    } else {
        let r = fold_extreme(plane, cells.drop_last(), init, min);
        let v = plane[cells.last()] as int;
        if min {
            if v < r { v } else { r }
        } else {
            if v > r { v } else { r }
        }
    }
}

proof fn lemma_fold_extreme_step(plane: Seq<u8>, cells: Seq<int>, init: int, min: bool, k: int)
    requires
        0 <= k < cells.len(),
    ensures
        fold_extreme(plane, cells.take(k + 1), init, min) == ({
            let r = fold_extreme(plane, cells.take(k), init, min);
            let v = plane[cells[k]] as int;
            if min {
                if v < r { v } else { r }
            } else {
                if v > r { v } else { r }
            }
        }),
{
    assert(cells.take(k + 1).drop_last() =~= cells.take(k));
}

proof fn lemma_fold_extreme_bounds(plane: Seq<u8>, cells: Seq<int>, init: int, min: bool)
    requires
        0 <= init <= 255,
    ensures
        0 <= fold_extreme(plane, cells, init, min) <= 255,
    decreases cells.len(),
{
    if cells.len() > 0 {
        lemma_fold_extreme_bounds(plane, cells.drop_last(), init, min);
    }
}

/// The min/max accumulator of the perimeter walk.
fn acc(min: bool, r: i32, v: i32) -> (out: i32)
    ensures
        out == (if min {
            if v < r { v } else { r }
        } else {
            if v > r { v } else { r }
        }),
{
    if min {
        if v < r { v } else { r }
    } else {
        if v > r { v } else { r }
    }
}

/// Byte arithmetic facts of the walks: a u16 offset truncated to a byte
/// is the offset mod 256, and adding it wraps like adding the offset.
pub proof fn lemma_byte_offset(base: u8, off: u16)
    ensures
        (off as u8) as int == off as int % 256,
        (base + (off as u8) as int) % 256 == (base + off as int) % 256,
{
    assert((off as u8) as u16 == off % 256) by (bit_vector);
    let q = off as int / 256;
    assert(off as int == 256 * q + off as int % 256);
    assert((base + off as int) % 256 == (base + off as int % 256 + 256 * q) % 256);
    vstd::arithmetic::div_mod::lemma_mod_multiples_vanish(q, base + off as int % 256, 256);
}

/// Stepping back by the truncated offset undoes the wrapped forward
/// step.
pub proof fn lemma_byte_back(base: u8, off: u16)
    ensures
        (((base + off as int) % 256) - (off as int % 256) + 256) % 256 == base as int,
{
    let q = off as int / 256;
    let b = off as int % 256;
    assert(off as int == 256 * q + b);
    vstd::arithmetic::div_mod::lemma_mod_multiples_vanish(q, base + b, 256);
    assert((base + off as int) % 256 == (base + b) % 256);
    if base + b < 256 {
        assert((base + b) % 256 == base + b);
        vstd::arithmetic::div_mod::lemma_mod_multiples_vanish(1, base as int, 256);
    } else {
        assert((base + b) % 256 == base + b - 256) by {
            vstd::arithmetic::div_mod::lemma_mod_multiples_vanish(-1, base + b, 256);
        }
    }
}

/// A wrapped byte counter stepped once more is the base plus one more.
pub proof fn lemma_byte_inc(base: int, k: int)
    requires
        k >= 0,
    ensures
        (((base + k) % 256) + 1) % 256 == (base + k + 1) % 256,
{
    vstd::arithmetic::div_mod::lemma_add_mod_noop(base + k, 1, 256);
    assert(1int % 256 == 1);
    vstd::arithmetic::div_mod::lemma_mod_twice(base + k, 256);
}

proof fn lemma_perimeter_top(ox: u8, oy: u8, w: u16, h: u16, k: int)
    requires
        0 <= k < h,
    ensures
        perimeter_cells(ox as int, oy as int, w as int, h as int)[2 * k] == tile_spec(
            (ox + k) % 256,
            oy as int,
        ),
        perimeter_cells(ox as int, oy as int, w as int, h as int)[2 * k + 1] == tile_spec(
            (ox + k) % 256,
            (oy + (w as u8) as int) % 256,
        ),
{
    lemma_byte_offset(oy, w);
    assert((2 * k) / 2 == k);
    assert((2 * k + 1) / 2 == k);
    assert((2 * k) % 2 == 0);
    assert((2 * k + 1) % 2 == 1);
}

proof fn lemma_perimeter_side(ox: u8, oy: u8, w: u16, h: u16, q: int)
    requires
        0 <= q < w,
    ensures
        perimeter_cells(ox as int, oy as int, w as int, h as int)[2 * h + 2 * q] == tile_spec(
            (ox + h) % 256,
            (oy + q) % 256,
        ),
        perimeter_cells(ox as int, oy as int, w as int, h as int)[2 * h + 2 * q + 1]
            == tile_spec(((((ox + h) % 256) - (h as u8) as int) + 256) % 256, (oy + q) % 256),
{
    lemma_byte_offset(ox, h);
    lemma_byte_back(ox, h);
    assert((2 * h + 2 * q - 2 * h) / 2 == q);
    assert((2 * h + 2 * q + 1 - 2 * h) / 2 == q);
    assert((2 * h + 2 * q) % 2 == 0);
    assert((2 * h + 2 * q + 1) % 2 == 1);
}

/// The shared perimeter walk over one plane, from `init`.
#[verifier::spinoff_prover]
#[verifier::rlimit(40)]
pub fn perimeter_walk(plane: &Vec<u8>, ox: u8, oy: u8, w: u16, h: u16, min: bool, init: i32) -> (r: i32)
    requires
        plane@.len() == PLANE_CELLS,
        0 <= init <= 255,
    ensures
        r == fold_extreme(plane@, perimeter_cells(ox as int, oy as int, w as int, h as int), init as int, min),
{
    let ghost cells = perimeter_cells(ox as int, oy as int, w as int, h as int);
    let mut result = init;
    let mut x = ox;
    let mut k: u16 = 0;
    while k < h
        invariant
            plane@.len() == PLANE_CELLS,
            cells == perimeter_cells(ox as int, oy as int, w as int, h as int),
            k <= h,
            x as int == (ox + k) % 256,
            result == fold_extreme(plane@, cells.take(2 * k), init as int, min),
        decreases h - k,
    {
        let t1 = tile(x, oy);
        let t2 = tile(x, oy.wrapping_add(w as u8));
        proof {
            lemma_perimeter_top(ox, oy, w, h, k as int);
            lemma_byte_inc(ox as int, k as int);
            lemma_fold_extreme_step(plane@, cells, init as int, min, 2 * k);
            lemma_fold_extreme_step(plane@, cells, init as int, min, 2 * k + 1);
        }
        result = acc(min, result, plane[t1] as i32);
        result = acc(min, result, plane[t2] as i32);
        x = x.wrapping_add(1);
        k += 1;
    }
    let mut y = oy;
    let mut q: u16 = 0;
    while q < w
        invariant
            plane@.len() == PLANE_CELLS,
            cells == perimeter_cells(ox as int, oy as int, w as int, h as int),
            q <= w,
            x as int == (ox + h) % 256,
            y as int == (oy + q) % 256,
            result == fold_extreme(plane@, cells.take(2 * h + 2 * q), init as int, min),
        decreases w - q,
    {
        let t1 = tile(x, y);
        let t2 = tile(x.wrapping_sub(h as u8), y);
        proof {
            lemma_perimeter_side(ox, oy, w, h, q as int);
            lemma_byte_inc(oy as int, q as int);
            lemma_fold_extreme_step(plane@, cells, init as int, min, 2 * h + 2 * q);
            lemma_fold_extreme_step(plane@, cells, init as int, min, 2 * h + 2 * q + 1);
        }
        result = acc(min, result, plane[t1] as i32);
        result = acc(min, result, plane[t2] as i32);
        y = y.wrapping_add(1);
        q += 1;
    }
    proof {
        assert(cells.take(2 * h + 2 * w) =~= cells);
    }
    result
}

impl Gen {
    /// The shared box-perimeter walk: min (init 250) or max (init 0)
    /// over the floor or ceiling plane samples of
    /// [`perimeter_cells`].
    pub fn cave_perimeter(&self, ox: u8, oy: u8, w: u16, h: u16, min: bool, ceiling: bool) -> (r: i32)
        requires
            self.wf(),
            ceiling ==> self.cave(),
        ensures
            r == fold_extreme(
                if ceiling { self.t.ceiling@ } else { self.t.height@ },
                perimeter_cells(ox as int, oy as int, w as int, h as int),
                if min { 250 } else { 0 },
                min,
            ),
    {
        let init: i32 = if min { 250 } else { 0 };
        if ceiling {
            perimeter_walk(&self.t.ceiling, ox, oy, w, h, min, init)
        } else {
            perimeter_walk(&self.t.height, ox, oy, w, h, min, init)
        }
    }

    /// MAX floor over the box perimeter.
    pub fn cave_perimeter_max_floor(&self, ox: u8, oy: u8, w: u16, h: u16) -> (r: i32)
        requires
            self.wf(),
        ensures
            r == fold_extreme(self.t.height@, perimeter_cells(ox as int, oy as int, w as int, h as int), 0, false),
    {
        self.cave_perimeter(ox, oy, w, h, false, false)
    }

    /// MIN ceiling over the box perimeter (init 250).
    pub fn cave_perimeter_min_ceiling(&self, ox: u8, oy: u8, w: u16, h: u16) -> (r: i32)
        requires
            self.wf(),
            self.cave(),
        ensures
            r == fold_extreme(self.t.ceiling@, perimeter_cells(ox as int, oy as int, w as int, h as int), 250, true),
    {
        self.cave_perimeter(ox, oy, w, h, true, true)
    }

    /// MAX ceiling over the box perimeter.
    pub fn cave_perimeter_max_ceiling(&self, ox: u8, oy: u8, w: u16, h: u16) -> (r: i32)
        requires
            self.wf(),
            self.cave(),
        ensures
            r == fold_extreme(self.t.ceiling@, perimeter_cells(ox as int, oy as int, w as int, h as int), 0, false),
    {
        self.cave_perimeter(ox, oy, w, h, false, true)
    }

    /// MIN floor over the box perimeter (init 250).
    pub fn mc2_perimeter_min(&self, ox: u8, oy: u8, w: u16, h: u16) -> (r: i32)
        requires
            self.wf(),
        ensures
            r == fold_extreme(self.t.height@, perimeter_cells(ox as int, oy as int, w as int, h as int), 250, true),
    {
        perimeter_walk(&self.t.height, ox, oy, w, h, true, 250)
    }

    /// The tile under an engine position is deep water (type 8).
    pub fn mc2_deep_water(&self, x: u16, y: u16) -> (r: bool)
        requires
            self.wf(),
        ensures
            r == (self.t.tile_type@[tile_spec(x as int / 256, y as int / 256)] == 8),
    {
        proof {
            lemma_hi_byte(x);
            lemma_hi_byte(y);
        }
        self.t.tile_type[tile((x >> 8) as u8, (y >> 8) as u8)] == 8
    }

    /// The tile under an engine position carries the bit3 seal.
    pub fn mc2_sealed(&self, x: u16, y: u16) -> (r: bool)
        requires
            self.wf(),
        ensures
            r == (self.t.angle@[tile_spec(x as int / 256, y as int / 256)] & 8u8 != 0),
    {
        proof {
            lemma_hi_byte(x);
            lemma_hi_byte(y);
        }
        self.t.angle[tile((x >> 8) as u8, (y >> 8) as u8)] & 8 != 0
    }
}

// ---- the (14,2) cave pillar ------------------------------------------------

/// The cells of a `nx` x `ny` box at (kx, ky), row by row (x fastest);
/// byte coordinates wrap.
pub open spec fn box_cells(kx: int, ky: int, nx: int, ny: int) -> Seq<int> {
    Seq::new((nx * ny) as nat, |k: int| tile_spec((kx + k % nx) % 256, (ky + k / nx) % 256))
}

/// The pillar's footprint: `koef2 = 2*par3 + 4` long along the axis
/// its orientation picks (nonzero = X), 2 wide; centered on the
/// entity's tile; `s = koef2 / 4` the per-tick step.
pub ghost struct PillarGeom {
    pub nx: int,
    pub ny: int,
    pub kx: int,
    pub ky: int,
    pub ex: int,
    pub ey: int,
    pub s: int,
    pub along_x: bool,
}

pub open spec fn pillar_geom(e: Ent) -> PillarGeom {
    let koef2 = 2 * e.f146 + 4;
    let along_x = e.f44 != 0;
    let nx = if along_x { koef2 } else { 2 };
    let ny = if along_x { 2 } else { koef2 };
    let ex = e.x as int / 256;
    let ey = e.y as int / 256;
    PillarGeom {
        nx,
        ny,
        kx: (ex - nx / 2) % 256,
        ky: (ey - ny / 2) % 256,
        ex,
        ey,
        s: koef2 / 4,
        along_x,
    }
}

pub open spec fn pillar_cells(e: Ent) -> Seq<int> {
    let g = pillar_geom(e);
    box_cells(g.kx, g.ky, g.nx, g.ny)
}

/// The first sealed cell's floor along a byte ray from (ex, ey), at
/// most 256 steps; -1 when the ray never hits rock.
pub open spec fn scan_hit(p: PlaneView, ex: int, ey: int, dx: int, dy: int, k: nat) -> int
    decreases 256 - k,
{
    if k >= 256 {
        -1
    } else {
        let t = tile_spec((ex + k * dx) % 256, (ey + k * dy) % 256);
        if p.an[t] & 8u8 != 0 {
            p.h[t] as int
        } else {
            scan_hit(p, ex, ey, dx, dy, k + 1)
        }
    }
}

/// The flank blend: the midpoint of the near flanks when they agree
/// within 4, else the far side unless the extended flank agrees.
pub open spec fn pick_spec(a: int, b: int, c: int) -> int {
    if -4 <= a - b <= 4 {
        (a + b) / 2
    } else if !(-4 <= a - c <= 4) {
        b
    } else {
        a
    }
}

/// The sync of bit3 at a cell from the planes' own floor and ceiling.
pub open spec fn sync_cell(p: PlaneView, t: int) -> PlaneView {
    sync_view(p, t)
}

/// One GROW cell: an unsealed cell's floor rises by up to `s` toward
/// `z1` and its ceiling drops by up to `s` toward `z2`; then bit3 is
/// synced. The flag says whether a plane moved.
pub open spec fn grow_cell(p: PlaneView, t: int, s: int, z1: int, z2: int) -> (PlaneView, bool) {
    if p.an[t] & 8u8 == 0 {
        let h = p.h[t] as int;
        let c = p.ce[t] as int;
        let z5 = if s + h < z1 { s + h } else { z1 };
        let h2 = if z5 > h { z5 as u8 } else { p.h[t] };
        let z3 = if c - s > z2 { c - s } else { z2 };
        let c2 = if z3 < c { z3 as u8 } else { p.ce[t] };
        let q = PlaneView { h: p.h.update(t, h2), ce: p.ce.update(t, c2), ..p };
        (sync_view(q, t), z5 > h || z3 < c)
    } else {
        (sync_view(p, t), false)
    }
}

/// The three flank cells of a RETRACT cell: across the strip's short
/// axis (the rows/columns just outside the 2-wide strip).
pub open spec fn flanks(t: int, kx: int, ky: int, along_x: bool) -> (int, int, int) {
    let x = t % 256;
    let y = t / 256;
    if along_x {
        (
            tile_spec(x, (ky - 1) % 256),
            tile_spec(x, (ky + 2) % 256),
            tile_spec(x, (ky + 3) % 256),
        )
    } else {
        (
            tile_spec((kx - 1) % 256, y),
            tile_spec((kx + 2) % 256, y),
            tile_spec((kx + 3) % 256, y),
        )
    }
}

/// One RETRACT cell: floor relaxes down by up to `s` toward the flank
/// profile, ceiling up by up to `s` toward it; then bit3 is synced.
pub open spec fn retract_cell(p: PlaneView, t: int, s: int, kx: int, ky: int, along_x: bool) -> (PlaneView, bool) {
    let (p3, p4, p5) = flanks(t, kx, ky, along_x);
    let h = p.h[t] as int;
    let z1 = pick_spec(p.h[p3] as int, p.h[p4] as int, p.h[p5] as int);
    let z2 = if h - s > z1 { h - s } else { z1 };
    let h2 = if z2 < h { z2 as u8 } else { p.h[t] };
    let q = PlaneView { h: p.h.update(t, h2), ..p };
    let c = q.ce[t] as int;
    let z3 = pick_spec(q.ce[p3] as int, q.ce[p4] as int, q.ce[p5] as int);
    let z4 = if s + c < z3 { s + c } else { z3 };
    let c2 = if c < z4 { z4 as u8 } else { q.ce[t] };
    let r = PlaneView { ce: q.ce.update(t, c2), ..q };
    (sync_view(r, t), z2 < h || c < z4)
}

/// The MEASURE stamp: footprint cells get the dirty bit 0x80.
pub open spec fn stamp_dirty(p: PlaneView, t: int) -> PlaneView {
    PlaneView { an: p.an.update(t, p.an[t] | 0x80u8), ..p }
}

/// What one footprint cell of a pillar pass does: `mode` 0 stamps the
/// dirty bit, 1 grows, 2 retracts.
pub ghost struct PillarPass {
    pub mode: int,
    pub s: int,
    pub z1: int,
    pub z2: int,
    pub kx: int,
    pub ky: int,
    pub along_x: bool,
}

pub open spec fn pillar_cell(p: PlaneView, t: int, a: PillarPass) -> (PlaneView, bool) {
    if a.mode == 0 {
        (stamp_dirty(p, t), false)
    } else if a.mode == 1 {
        grow_cell(p, t, a.s, a.z1, a.z2)
    } else {
        retract_cell(p, t, a.s, a.kx, a.ky, a.along_x)
    }
}

/// A pillar pass over the footprint cells in walk order; the flag says
/// whether any cell moved.
pub open spec fn pillar_fold(p: PlaneView, cells: Seq<int>, a: PillarPass) -> (PlaneView, bool)
    decreases cells.len(),
{
    if cells.len() == 0 {
        (p, false)
    } else {
        let (q, ch) = pillar_fold(p, cells.drop_last(), a);
        let (q2, ch2) = pillar_cell(q, cells.last(), a);
        (q2, ch || ch2)
    }
}

/// The GROW targets from the center cell: floor target `z1` (clamped to
/// [0, base z]), ceiling target `z2` (clamped to [base z, 254]).
pub open spec fn grow_targets(p: PlaneView, e: Ent) -> (int, int) {
    let g = pillar_geom(e);
    let ec = tile_spec(g.ex, g.ey);
    let ez = e.z as int;
    let z1a = g.s + p.h[ec] + 1;
    let z2a = p.ce[ec] - g.s - 1;
    let z1b = if z1a < 0 { 0 } else { z1a };
    let z1 = if z1b > ez { ez } else { z1b };
    let z2b = if ez > z2a { ez } else { z2a };
    let z2 = if z2b > 254 { 254 } else { z2b };
    (z1, z2)
}

/// The pillar tick's effect on (planes, entity, terrain-changed, sound):
/// life 0 = MEASURE (find the flanking sealed walls along the long
/// axis, base z = their floor midpoint, stamp the footprint dirty, idle
/// at 4; no wall either way despawns), 1 = GROW toward the capped
/// targets (all still -> life 3), 2 = RETRACT toward the flank profile
/// (all still -> life 4). Other lives do nothing.
pub open spec fn pillar_spec(p: PlaneView, e: Ent) -> (PlaneView, Ent, bool, bool) {
    let g = pillar_geom(e);
    let cells = box_cells(g.kx, g.ky, g.nx, g.ny);
    if e.act_life == 0 {
        let (h1, h2) = if g.along_x {
            (scan_hit(p, g.ex, g.ey, -1, 0, 0), scan_hit(p, g.ex, g.ey, 1, 0, 0))
        } else {
            (scan_hit(p, g.ex, g.ey, 0, -1, 0), scan_hit(p, g.ex, g.ey, 0, 1, 0))
        };
        if h1 == -1 || h2 == -1 {
            (p, Ent { act_life: 4, flags: e.flags | F_DEAD, ..e }, false, false)
        } else {
            let stamp = PillarPass { mode: 0, s: g.s, z1: 0, z2: 0, kx: g.kx, ky: g.ky, along_x: g.along_x };
            (
                pillar_fold(p, cells, stamp).0,
                Ent { act_life: 4, z: ((h2 + h1) / 2) as i16, ..e },
                true,
                false,
            )
        }
    } else if e.act_life == 1 {
        let (z1, z2) = grow_targets(p, e);
        let grow = PillarPass { mode: 1, s: g.s, z1, z2, kx: g.kx, ky: g.ky, along_x: g.along_x };
        let (q, ch) = pillar_fold(p, cells, grow);
        (q, if ch { e } else { Ent { act_life: 3, ..e } }, ch, true)
    } else if e.act_life == 2 {
        let retract = PillarPass { mode: 2, s: g.s, z1: 0, z2: 0, kx: g.kx, ky: g.ky, along_x: g.along_x };
        let (q, ch) = pillar_fold(p, cells, retract);
        (q, if ch { e } else { Ent { act_life: 4, ..e } }, ch, true)
    } else {
        (p, e, false, false)
    }
}

/// Outside its three active phases (life 0, 1, 2) a pillar tick changes
/// nothing.
pub proof fn pillar_idle_is_inert(p: PlaneView, e: Ent)
    requires
        !(0 <= e.act_life <= 2),
    ensures
        pillar_spec(p, e) == (p, e, false, false),
{
}

/// The measure phase always ends idle (life 4), with or without flank
/// walls; a retract that changes nothing also ends at 4, a grow that
/// changes nothing at 3 (built).
pub proof fn pillar_phases_settle(p: PlaneView, e: Ent)
    ensures
        e.act_life == 0 ==> pillar_spec(p, e).1.act_life == 4,
        e.act_life == 1 && !pillar_spec(p, e).2 ==> pillar_spec(p, e).1.act_life == 3,
        e.act_life == 2 && !pillar_spec(p, e).2 ==> pillar_spec(p, e).1.act_life == 4,
{
}

/// The seal at cell `t` agrees with the planes: bit3 set exactly when
/// the ceiling does not clear the floor.
pub open spec fn seal_synced(p: PlaneView, t: int) -> bool {
    (p.an[t] & 8u8 != 0) == !(p.ce[t] > p.h[t])
}

/// The bit3 sync leaves the cell in agreement.
pub proof fn lemma_sync_view_synced(p: PlaneView, t: int)
    requires
        0 <= t < p.an.len(),
    ensures
        seal_synced(sync_view(p, t), t),
{
    let a = p.an[t];
    lemma_bit3(a);
}

/// One grow or retract cell touches only its own cell, keeps the plane
/// sizes, and leaves that cell in agreement.
pub proof fn lemma_pillar_cell_local(q: PlaneView, t: int, a: PillarPass)
    requires
        q.wf(),
        q.ce.len() == PLANE_CELLS,
        0 <= t < PLANE_CELLS,
        a.mode == 1 || a.mode == 2,
        a.mode == 2 ==> ({
            let (p3, p4, p5) = flanks(t, a.kx, a.ky, a.along_x);
            0 <= p3 < PLANE_CELLS && 0 <= p4 < PLANE_CELLS && 0 <= p5 < PLANE_CELLS
        }),
    ensures
        ({
            let q2 = pillar_cell(q, t, a).0;
            &&& q2.wf()
            &&& q2.ce.len() == PLANE_CELLS
            &&& seal_synced(q2, t)
            &&& forall|c: int| 0 <= c < PLANE_CELLS && c != t ==> q2.h[c] == q.h[c] && q2.ce[c] == q.ce[c]
                && q2.an[c] == q.an[c]
        }),
{
    if a.mode == 1 {
        if q.an[t] & 8u8 == 0 {
            let h = q.h[t] as int;
            let c = q.ce[t] as int;
            let z5 = if a.s + h < a.z1 { a.s + h } else { a.z1 };
            let h2 = if z5 > h { z5 as u8 } else { q.h[t] };
            let z3 = if c - a.s > a.z2 { c - a.s } else { a.z2 };
            let c2 = if z3 < c { z3 as u8 } else { q.ce[t] };
            let r = PlaneView { h: q.h.update(t, h2), ce: q.ce.update(t, c2), ..q };
            lemma_sync_view_synced(r, t);
        } else {
            lemma_sync_view_synced(q, t);
        }
    } else {
        let (p3, p4, p5) = flanks(t, a.kx, a.ky, a.along_x);
        let h = q.h[t] as int;
        let z1 = pick_spec(q.h[p3] as int, q.h[p4] as int, q.h[p5] as int);
        let z2 = if h - a.s > z1 { h - a.s } else { z1 };
        let h2 = if z2 < h { z2 as u8 } else { q.h[t] };
        let qa = PlaneView { h: q.h.update(t, h2), ..q };
        let c = qa.ce[t] as int;
        let z3 = pick_spec(qa.ce[p3] as int, qa.ce[p4] as int, qa.ce[p5] as int);
        let z4 = if a.s + c < z3 { a.s + c } else { z3 };
        let c2 = if c < z4 { z4 as u8 } else { qa.ce[t] };
        let r = PlaneView { ce: qa.ce.update(t, c2), ..qa };
        lemma_sync_view_synced(r, t);
    }
}

/// The flank cells are cells of the plane.
pub proof fn lemma_flanks_in_plane(t: int, kx: int, ky: int, along_x: bool)
    requires
        0 <= t < PLANE_CELLS,
    ensures
        ({
            let (p3, p4, p5) = flanks(t, kx, ky, along_x);
            0 <= p3 < PLANE_CELLS && 0 <= p4 < PLANE_CELLS && 0 <= p5 < PLANE_CELLS
        }),
{
}

/// After a grow or retract pass over any cells of the plane, every
/// visited cell's seal agrees with its planes (the pass syncs bit3 from
/// the final floor and ceiling of each cell), and the plane sizes stay.
pub proof fn pillar_pass_syncs(p: PlaneView, cells: Seq<int>, a: PillarPass)
    requires
        p.wf(),
        p.ce.len() == PLANE_CELLS,
        a.mode == 1 || a.mode == 2,
        forall|k: int| 0 <= k < cells.len() ==> 0 <= #[trigger] cells[k] < PLANE_CELLS,
    ensures
        pillar_fold(p, cells, a).0.wf(),
        pillar_fold(p, cells, a).0.ce.len() == PLANE_CELLS,
        forall|k: int| 0 <= k < cells.len() ==> seal_synced(pillar_fold(p, cells, a).0, #[trigger] cells[k]),
    decreases cells.len(),
{
    if cells.len() > 0 {
        let init = cells.drop_last();
        assert forall|k: int| 0 <= k < init.len() implies 0 <= #[trigger] init[k] < PLANE_CELLS by {
            assert(init[k] == cells[k]);
        }
        pillar_pass_syncs(p, init, a);
        let q = pillar_fold(p, init, a).0;
        let t = cells.last();
        assert(cells[cells.len() - 1] == t);
        lemma_flanks_in_plane(t, a.kx, a.ky, a.along_x);
        lemma_pillar_cell_local(q, t, a);
        let q2 = pillar_cell(q, t, a).0;
        assert forall|k: int| 0 <= k < cells.len() implies seal_synced(q2, #[trigger] cells[k]) by {
            if cells[k] != t {
                assert(cells[k] == init[k]);
                assert(seal_synced(q, init[k]));
            }
        }
    }
}

/// A grow pass over cells of the plane, toward a floor target within a
/// byte and a ceiling target not below 0, never lowers a floor or raises
/// a ceiling, and leaves every cell it does not visit as it was.
pub proof fn lemma_grow_pass_monotone(p: PlaneView, cells: Seq<int>, a: PillarPass)
    requires
        p.wf(),
        p.ce.len() == PLANE_CELLS,
        a.mode == 1,
        a.z1 <= 255,
        0 <= a.z2,
        forall|k: int| 0 <= k < cells.len() ==> 0 <= #[trigger] cells[k] < PLANE_CELLS,
    ensures
        ({
            let q = pillar_fold(p, cells, a).0;
            &&& q.wf()
            &&& q.ce.len() == PLANE_CELLS
            &&& forall|t: int| 0 <= t < PLANE_CELLS ==> #[trigger] q.h[t] >= p.h[t] && q.ce[t] <= p.ce[t]
            &&& forall|t: int| 0 <= t < PLANE_CELLS && !cells.contains(t) ==> #[trigger] q.h[t] == p.h[t]
                && q.ce[t] == p.ce[t] && q.an[t] == p.an[t]
        }),
    decreases cells.len(),
{
    if cells.len() > 0 {
        let init = cells.drop_last();
        assert forall|k: int| 0 <= k < init.len() implies 0 <= #[trigger] init[k] < PLANE_CELLS by {
            assert(init[k] == cells[k]);
        }
        lemma_grow_pass_monotone(p, init, a);
        let q = pillar_fold(p, init, a).0;
        let tt = cells.last();
        assert(cells[cells.len() - 1] == tt);
        lemma_pillar_cell_local(q, tt, a);
        let q2 = pillar_cell(q, tt, a).0;
        assert(q2.h[tt] >= q.h[tt] && q2.ce[tt] <= q.ce[tt]);
        assert forall|t: int| 0 <= t < PLANE_CELLS implies #[trigger] q2.h[t] >= p.h[t] && q2.ce[t] <= p.ce[t] by {
            assert(q.h[t] >= p.h[t] && q.ce[t] <= p.ce[t]);
        }
        assert forall|t: int| 0 <= t < PLANE_CELLS && !cells.contains(t) implies #[trigger] q2.h[t] == p.h[t]
            && q2.ce[t] == p.ce[t] && q2.an[t] == p.an[t] by {
            assert(t != tt);
            if init.contains(t) {
                let m = choose|m: int| 0 <= m < init.len() && init[m] == t;
                assert(cells[m] == t);
            }
        }
    }
}

/// A pillar grow tick on a cave, with its base height within a byte,
/// never lowers a floor or raises a ceiling anywhere, leaves the planes
/// outside its footprint as they were, syncs every footprint seal, and
/// reports no change exactly when it settles as built (life 3;
/// otherwise it stays at 1).
pub proof fn pillar_grow_monotone(p: PlaneView, e: Ent)
    requires
        p.wf(),
        p.ce.len() == PLANE_CELLS,
        e.act_life == 1,
        0 <= e.z <= 255,
    ensures
        ({
            let (q, e2, ch, _) = pillar_spec(p, e);
            &&& forall|t: int| 0 <= t < PLANE_CELLS ==> #[trigger] q.h[t] >= p.h[t] && q.ce[t] <= p.ce[t]
            &&& forall|t: int| 0 <= t < PLANE_CELLS && !pillar_cells(e).contains(t) ==> #[trigger] q.h[t] == p.h[t]
                && q.ce[t] == p.ce[t] && q.an[t] == p.an[t]
            &&& forall|k: int| 0 <= k < pillar_cells(e).len() ==> seal_synced(q, #[trigger] pillar_cells(e)[k])
            &&& !ch <==> e2.act_life == 3
            &&& ch ==> e2 == e
        }),
{
    let g = pillar_geom(e);
    let cells = pillar_cells(e);
    assert forall|k: int| 0 <= k < cells.len() implies 0 <= #[trigger] cells[k] < PLANE_CELLS by {
        let x = (g.kx + k % g.nx) % 256;
        let y = (g.ky + k / g.nx) % 256;
        assert(cells[k] == tile_spec(x, y));
    }
    let (z1, z2) = grow_targets(p, e);
    let grow = PillarPass { mode: 1, s: g.s, z1, z2, kx: g.kx, ky: g.ky, along_x: g.along_x };
    lemma_grow_pass_monotone(p, cells, grow);
    pillar_tick_syncs_footprint(p, e);
}

/// After a pillar grow or retract tick on a cave, every footprint
/// cell's seal agrees with its planes.
pub proof fn pillar_tick_syncs_footprint(p: PlaneView, e: Ent)
    requires
        p.wf(),
        p.ce.len() == PLANE_CELLS,
        e.act_life == 1 || e.act_life == 2,
    ensures
        forall|k: int| 0 <= k < pillar_cells(e).len() ==> seal_synced(pillar_spec(p, e).0, #[trigger] pillar_cells(e)[k]),
{
    let g = pillar_geom(e);
    let cells = pillar_cells(e);
    assert forall|k: int| 0 <= k < cells.len() implies 0 <= #[trigger] cells[k] < PLANE_CELLS by {
        let x = (g.kx + k % g.nx) % 256;
        let y = (g.ky + k / g.nx) % 256;
        assert(cells[k] == tile_spec(x, y));
        assert(0 <= x < 256 && 0 <= y < 256);
    }
    if e.act_life == 1 {
        let (z1, z2) = grow_targets(p, e);
        let grow = PillarPass { mode: 1, s: g.s, z1, z2, kx: g.kx, ky: g.ky, along_x: g.along_x };
        pillar_pass_syncs(p, cells, grow);
    } else {
        let retract = PillarPass { mode: 2, s: g.s, z1: 0, z2: 0, kx: g.kx, ky: g.ky, along_x: g.along_x };
        pillar_pass_syncs(p, cells, retract);
    }
}

/// Index arithmetic of a row-by-row box walk.
pub proof fn lemma_box_cell(kx: int, ky: int, nx: int, ny: int, row: int, col: int)
    requires
        0 <= row < ny,
        0 <= col < nx,
    ensures
        0 <= row * nx + col < nx * ny,
        (row + 1) * nx == row * nx + nx,
        box_cells(kx, ky, nx, ny)[row * nx + col] == tile_spec((kx + col) % 256, (ky + row) % 256),
{
    assert(row * nx + col < nx * ny) by (nonlinear_arith)
        requires
            0 <= row < ny,
            0 <= col < nx,
    ;
    assert(0 <= row * nx) by (nonlinear_arith)
        requires
            0 <= row,
            0 <= nx,
    ;
    assert((row + 1) * nx == row * nx + nx) by (nonlinear_arith);
    vstd::arithmetic::div_mod::lemma_fundamental_div_mod_converse(row * nx + col, nx, row, col);
}

/// The flank blend of the RETRACT.
fn pick(a: i32, b: i32, c: i32) -> (r: i32)
    requires
        0 <= a <= 255,
        0 <= b <= 255,
        0 <= c <= 255,
    ensures
        r == pick_spec(a as int, b as int, c as int),
{
    if -4 <= a - b && a - b <= 4 {
        (a + b) / 2
    } else if !(-4 <= a - c && a - c <= 4) {
        b
    } else {
        a
    }
}

impl Gen {
    /// The bit3 sync at one cell (no ceiling pin).
    pub fn sync_bit3(&mut self, t: usize)
        requires
            old(self).wf(),
            old(self).cave(),
            t < PLANE_CELLS,
        ensures
            final(self).wf(),
            final(self).t@ == sync_view(old(self).t@, t as int),
            old(self).frame_planes(final(self)),
    {
        let a = self.t.angle[t];
        if self.t.ceiling[t] > self.t.height[t] {
            proof {
                lemma_bit3(a);
            }
            self.t.angle.set(t, a & !8u8);
        } else {
            self.t.angle.set(t, a | 8u8);
        }
        assert(self.t@.an =~= sync_view(old(self).t@, t as int).an);
    }

    fn pillar_grow_cell(&mut self, t: usize, s: i32, z1: i32, z2: i32) -> (moved: bool)
        requires
            old(self).wf(),
            old(self).cave(),
            t < PLANE_CELLS,
            0 <= s <= 40000,
            -100000 <= z1 <= 100000,
            -100000 <= z2 <= 100000,
        ensures
            final(self).wf(),
            (final(self).t@, moved) == grow_cell(old(self).t@, t as int, s as int, z1 as int, z2 as int),
            old(self).frame_planes(final(self)),
    {
        let mut moved = false;
        if self.t.angle[t] & 8 == 0 {
            let h = self.t.height[t] as i32;
            let z5 = if s + h < z1 { s + h } else { z1 };
            if z5 > h {
                self.t.height.set(t, z5 as u8);
                moved = true;
            }
            let c = self.t.ceiling[t] as i32;
            let z3 = if c - s > z2 { c - s } else { z2 };
            if z3 < c {
                self.t.ceiling.set(t, z3 as u8);
                moved = true;
            }
        }
        let ghost mid = self.t@;
        self.sync_bit3(t);
        proof {
            let p = old(self).t@;
            if p.an[t as int] & 8u8 == 0 {
                let h = p.h[t as int] as int;
                let c = p.ce[t as int] as int;
                let z5 = if s + h < z1 { s + h } else { z1 as int };
                let h2 = if z5 > h { z5 as u8 } else { p.h[t as int] };
                let z3 = if c - s > z2 { c - s } else { z2 as int };
                let c2 = if z3 < c { z3 as u8 } else { p.ce[t as int] };
                assert(mid.h =~= p.h.update(t as int, h2));
                assert(mid.ce =~= p.ce.update(t as int, c2));
                assert(mid == PlaneView { h: p.h.update(t as int, h2), ce: p.ce.update(t as int, c2), ..p });
            } else {
                assert(mid == p);
            }
        }
        moved
    }

    #[verifier::spinoff_prover]
    #[verifier::rlimit(40)]
    fn pillar_retract_cell(&mut self, t: usize, s: i32, kx: u8, ky: u8, along_x: bool) -> (moved: bool)
        requires
            old(self).wf(),
            old(self).cave(),
            t < PLANE_CELLS,
            0 <= s <= 40000,
        ensures
            final(self).wf(),
            (final(self).t@, moved) == retract_cell(old(self).t@, t as int, s as int, kx as int, ky as int, along_x),
            old(self).frame_planes(final(self)),
    {
        let x = (t % 256) as u8;
        let y = (t / 256) as u8;
        let (p3, p4, p5) = if along_x {
            (tile(x, ky.wrapping_sub(1)), tile(x, ky.wrapping_add(2)), tile(x, ky.wrapping_add(3)))
        } else {
            (tile(kx.wrapping_sub(1), y), tile(kx.wrapping_add(2), y), tile(kx.wrapping_add(3), y))
        };
        proof {
            let (q3, q4, q5) = flanks(t as int, kx as int, ky as int, along_x);
            assert(p3 as int == q3);
            assert(p4 as int == q4);
            assert(p5 as int == q5);
        }
        let mut moved = false;
        let h = self.t.height[t] as i32;
        let z1 = pick(self.t.height[p3] as i32, self.t.height[p4] as i32, self.t.height[p5] as i32);
        let z2 = if h - s > z1 { h - s } else { z1 };
        if z2 < h {
            self.t.height.set(t, z2 as u8);
            moved = true;
        }
        let ghost q = self.t@;
        let c = self.t.ceiling[t] as i32;
        let z3 = pick(self.t.ceiling[p3] as i32, self.t.ceiling[p4] as i32, self.t.ceiling[p5] as i32);
        let z4 = if s + c < z3 { s + c } else { z3 };
        if c < z4 {
            self.t.ceiling.set(t, z4 as u8);
            moved = true;
        }
        let ghost r = self.t@;
        self.sync_bit3(t);
        proof {
            let p = old(self).t@;
            let h2 = if z2 < h { z2 as u8 } else { p.h[t as int] };
            assert(q.h =~= p.h.update(t as int, h2));
            assert(q == PlaneView { h: p.h.update(t as int, h2), ..p });
            let c2 = if c < z4 { z4 as u8 } else { q.ce[t as int] };
            assert(r.ce =~= q.ce.update(t as int, c2));
            assert(r == PlaneView { ce: q.ce.update(t as int, c2), ..q });
        }
        moved
    }

    /// One pillar pass over a `nx` x `ny` footprint at (kx, ky), row by
    /// row: mode 0 stamps, 1 grows, 2 retracts. Returns whether any
    /// cell moved.
    fn pillar_pass(
        &mut self,
        kx: u8,
        ky: u8,
        nx: i32,
        ny: i32,
        mode: u8,
        s: i32,
        z1: i32,
        z2: i32,
        along_x: bool,
    ) -> (moved: bool)
        requires
            old(self).wf(),
            mode == 0 || old(self).cave(),
            0 <= nx <= 200000,
            0 <= ny <= 200000,
            0 <= s <= 40000,
            -100000 <= z1 <= 100000,
            -100000 <= z2 <= 100000,
        ensures
            final(self).wf(),
            (final(self).t@, moved) == pillar_fold(
                old(self).t@,
                box_cells(kx as int, ky as int, nx as int, ny as int),
                PillarPass { mode: mode as int, s: s as int, z1: z1 as int, z2: z2 as int, kx: kx as int, ky: ky as int, along_x },
            ),
            old(self).frame_planes(final(self)),
    {
        let ghost a = PillarPass { mode: mode as int, s: s as int, z1: z1 as int, z2: z2 as int, kx: kx as int, ky: ky as int, along_x };
        let ghost cells = box_cells(kx as int, ky as int, nx as int, ny as int);
        let ghost p0 = self.t@;
        let mut moved = false;
        let mut y = ky;
        let mut row: i32 = 0;
        while row < ny
            invariant
                self.wf(),
                mode == 0 || self.cave(),
                old(self).frame_planes(self),
                0 <= row <= ny,
                0 <= nx <= 200000,
                0 <= ny <= 200000,
                0 <= s <= 40000,
                -100000 <= z1 <= 100000,
                -100000 <= z2 <= 100000,
                a == (PillarPass { mode: mode as int, s: s as int, z1: z1 as int, z2: z2 as int, kx: kx as int, ky: ky as int, along_x }),
                cells == box_cells(kx as int, ky as int, nx as int, ny as int),
                p0 == old(self).t@,
                y as int == (ky + row) % 256,
                0 <= row * nx <= nx * ny,
                (self.t@, moved) == pillar_fold(p0, cells.take(row * nx), a),
            decreases ny - row,
        {
            let mut x = kx;
            let mut col: i32 = 0;
            while col < nx
                invariant
                    self.wf(),
                    mode == 0 || self.cave(),
                    old(self).frame_planes(self),
                    0 <= row < ny,
                    0 <= col <= nx,
                    0 <= nx <= 200000,
                    0 <= ny <= 200000,
                    0 <= s <= 40000,
                    -100000 <= z1 <= 100000,
                    -100000 <= z2 <= 100000,
                    a == (PillarPass { mode: mode as int, s: s as int, z1: z1 as int, z2: z2 as int, kx: kx as int, ky: ky as int, along_x }),
                    cells == box_cells(kx as int, ky as int, nx as int, ny as int),
                    p0 == old(self).t@,
                    y as int == (ky + row) % 256,
                    x as int == (kx + col) % 256,
                    0 <= row * nx + col <= nx * ny,
                    (self.t@, moved) == pillar_fold(p0, cells.take(row * nx + col), a),
                decreases nx - col,
            {
                let t = tile(x, y);
                proof {
                    lemma_box_cell(kx as int, ky as int, nx as int, ny as int, row as int, col as int);
                    let k = row * nx + col;
                    assert(cells.take(k + 1).drop_last() =~= cells.take(k));
                    assert(cells.take(k + 1).last() == cells[k]);
                }
                let ghost before = self.t@;
                let ch = if mode == 0 {
                    let ag = self.t.angle[t];
                    self.t.angle.set(t, ag | 0x80u8);
                    proof {
                        assert(self.t@.an =~= stamp_dirty(before, t as int).an);
                    }
                    false
                } else if mode == 1 {
                    self.pillar_grow_cell(t, s, z1, z2)
                } else {
                    self.pillar_retract_cell(t, s, kx, ky, along_x)
                };
                moved = moved || ch;
                proof {
                    lemma_byte_inc(kx as int, col as int);
                }
                x = x.wrapping_add(1);
                col += 1;
            }
            proof {
                lemma_byte_inc(ky as int, row as int);
                assert((row + 1) * nx == row * nx + nx) by (nonlinear_arith);
                assert((row + 1) * nx <= nx * ny) by (nonlinear_arith)
                    requires
                        row < ny,
                        0 <= nx,
                ;
            }
            y = y.wrapping_add(1);
            row += 1;
        }
        proof {
            assert(cells.take(ny * nx) =~= cells) by {
                assert(ny * nx == nx * ny) by (nonlinear_arith);
            }
        }
        moved
    }
}

/// A byte coordinate stepped back by an offset's low byte is the
/// coordinate minus the offset, mod 256.
pub proof fn lemma_byte_sub(base: int, n: int)
    requires
        0 <= base < 256,
        n >= 0,
    ensures
        (base - n % 256 + 256) % 256 == (base - n) % 256,
{
    let q = n / 256;
    assert(n == 256 * q + n % 256);
    vstd::arithmetic::div_mod::lemma_mod_multiples_vanish(q + 1, base - n, 256);
    assert(base - n % 256 + 256 == base - n + 256 * (q + 1));
}

/// A ray hit is -1 or a floor byte.
pub proof fn lemma_scan_hit_range(p: PlaneView, ex: int, ey: int, dx: int, dy: int, k: nat)
    ensures
        -1 <= scan_hit(p, ex, ey, dx, dy, k) <= 255,
    decreases 256 - k,
{
    if k < 256 {
        let t = tile_spec((ex + k * dx) % 256, (ey + k * dy) % 256);
        if p.an[t] & 8u8 == 0 {
            lemma_scan_hit_range(p, ex, ey, dx, dy, k + 1);
        }
    }
}

/// A byte ray step: adding the byte of a unit step `d` wraps like
/// adding `d`.
pub proof fn lemma_ray_step(base: int, k: int, d: int, db: u8)
    requires
        0 <= base < 256,
        k >= 0,
        -1 <= d <= 1,
        db as int == d % 256,
    ensures
        (((base + k * d) % 256) + db as int) % 256 == (base + (k + 1) * d) % 256,
{
    assert((k + 1) * d == k * d + d) by (nonlinear_arith);
    vstd::arithmetic::div_mod::lemma_add_mod_noop(base + k * d, d, 256);
    vstd::arithmetic::div_mod::lemma_mod_twice(base + k * d, 256);
    vstd::arithmetic::div_mod::lemma_mod_twice(d, 256);
    vstd::arithmetic::div_mod::lemma_add_mod_noop((base + k * d) % 256, d, 256);
    vstd::arithmetic::div_mod::lemma_add_mod_noop((base + k * d) % 256, db as int, 256);
}

impl Gen {
    /// The MEASURE ray: from (ex, ey) step (dx, dy) up to 256 times and
    /// return the first sealed cell's floor, or -1.
    fn pillar_scan(&self, ex: u8, ey: u8, dx: i8, dy: i8) -> (r: i32)
        requires
            self.wf(),
            -1 <= dx <= 1,
            -1 <= dy <= 1,
        ensures
            r == scan_hit(self.t@, ex as int, ey as int, dx as int, dy as int, 0),
    {
        let dxb = dx as u8;
        let dyb = dy as u8;
        assert(dxb as int == dx as int % 256) by {
            assert(dx == -1 ==> dx as u8 == 255u8) by (bit_vector);
            assert(dx >= 0 ==> dx as u8 == dx as u8) by (bit_vector);
        }
        assert(dyb as int == dy as int % 256) by {
            assert(dy == -1 ==> dy as u8 == 255u8) by (bit_vector);
        }
        let mut x = ex;
        let mut y = ey;
        let mut k: u32 = 0;
        while k < 256
            invariant
                self.wf(),
                -1 <= dx <= 1,
                -1 <= dy <= 1,
                dxb as int == dx as int % 256,
                dyb as int == dy as int % 256,
                k <= 256,
                x as int == (ex + k * dx) % 256,
                y as int == (ey + k * dy) % 256,
                scan_hit(self.t@, ex as int, ey as int, dx as int, dy as int, 0)
                    == scan_hit(self.t@, ex as int, ey as int, dx as int, dy as int, k as nat),
            decreases 256 - k,
        {
            let t = tile(x, y);
            if self.t.angle[t] & 8 != 0 {
                return self.t.height[t] as i32;
            }
            proof {
                lemma_ray_step(ex as int, k as int, dx as int, dxb);
                lemma_ray_step(ey as int, k as int, dy as int, dyb);
            }
            x = x.wrapping_add(dxb);
            y = y.wrapping_add(dyb);
            k += 1;
        }
        -1
    }

    /// The pillar's footprint geometry from its entity:
    /// (ex, ey, kx, ky, nx, ny, s), see [`pillar_geom`].
    fn pillar_frame(&self, i: usize) -> (r: (u8, u8, u8, u8, i32, i32, i32))
        requires
            self.wf(),
            i < self.ent@.len(),
        ensures
            ({
                let g = pillar_geom(self.ent@[i as int]);
                &&& r.0 as int == g.ex
                &&& r.1 as int == g.ey
                &&& r.2 as int == g.kx
                &&& r.3 as int == g.ky
                &&& r.4 as int == g.nx
                &&& r.5 as int == g.ny
                &&& r.6 as int == g.s
            }),
            0 <= r.4 <= 200000,
            0 <= r.5 <= 200000,
            0 <= r.6 <= 40000,
    {
        let ghost e0 = self.ent@[i as int];
        let hw = self.ent[i].f146 as i32;
        let hw8 = hw << 8;
        assert(0 <= hw <= 65535 ==> hw << 8i32 == hw * 256) by (bit_vector);
        let koef2 = (2 * (hw8 + 512) + 128) >> 8;
        assert(0 <= hw <= 65535 ==> ((2 * (hw * 256 + 512) + 128) as i32) >> 8i32 == 2 * hw + 4) by (bit_vector);
        let (koef_x, koef_y) = if self.ent[i].f44 != 0 { (koef2, 2) } else { (2, koef2) };
        let ex = (self.ent[i].x >> 8) as u8;
        let ey = (self.ent[i].y >> 8) as u8;
        proof {
            lemma_hi_byte(e0.x);
            lemma_hi_byte(e0.y);
        }
        let kx = ex.wrapping_sub((koef_x >> 1) as u8);
        let ky = ey.wrapping_sub((koef_y >> 1) as u8);
        assert(0 <= koef_x <= 200000 ==> ((koef_x >> 1i32) as u8) as int == (koef_x / 2) % 256) by (bit_vector);
        assert(0 <= koef_y <= 200000 ==> ((koef_y >> 1i32) as u8) as int == (koef_y / 2) % 256) by (bit_vector);
        proof {
            lemma_byte_sub(ex as int, koef_x / 2);
            lemma_byte_sub(ey as int, koef_y / 2);
        }
        let s = (8 * koef2) >> 5;
        assert(0 <= koef2 <= 200000 ==> ((8 * koef2) as i32) >> 5i32 == koef2 / 4) by (bit_vector);
        (ex, ey, kx, ky, koef_x, koef_y, s)
    }

    /// MEASURE: scan for the flanking walls, set the base z, stamp the
    /// footprint (or despawn when a side is open).
    #[verifier::spinoff_prover]
    fn pillar_measure(&mut self, i: usize) -> (changed: bool)
        requires
            old(self).wf(),
            i < old(self).ent@.len(),
            old(self).ent@[i as int].act_life == 0,
        ensures
            final(self).wf(),
            old(self).regs_eq(final(self)),
            ({
                let (p, e, ch, sound) = pillar_spec(old(self).t@, old(self).ent@[i as int]);
                &&& final(self).t@ == p
                &&& final(self).ent@ == old(self).ent@.update(i as int, e)
                &&& changed == ch
                &&& final(self).sounds@ == old(self).sounds@
            }),
    {
        let ghost e0 = self.ent@[i as int];
        let ghost g = pillar_geom(e0);
        let (ex, ey, kx, ky, nx, ny, s) = self.pillar_frame(i);
        let along_x = self.ent[i].f44 != 0;
        let (h1, h2) = if along_x {
            (self.pillar_scan(ex, ey, -1, 0), self.pillar_scan(ex, ey, 1, 0))
        } else {
            (self.pillar_scan(ex, ey, 0, -1), self.pillar_scan(ex, ey, 0, 1))
        };
        self.ent[i].act_life = 4;
        if h1 == -1 || h2 == -1 {
            self.ent[i].flags = self.ent[i].flags | F_DEAD;
            return false;
        }
        proof {
            lemma_scan_hit_range(old(self).t@, ex as int, ey as int, -1, 0, 0);
            lemma_scan_hit_range(old(self).t@, ex as int, ey as int, 1, 0, 0);
            lemma_scan_hit_range(old(self).t@, ex as int, ey as int, 0, -1, 0);
            lemma_scan_hit_range(old(self).t@, ex as int, ey as int, 0, 1, 0);
        }
        self.ent[i].z = ((h2 + h1) >> 1) as i16;
        assert(0 <= h1 <= 255 && 0 <= h2 <= 255 ==> ((h2 + h1) as i32) >> 1i32 == (h2 + h1) / 2) by (bit_vector);
        self.pillar_pass(kx, ky, nx, ny, 0, s, 0, 0, along_x);
        true
    }

    /// GROW toward the capped targets; all still -> life 3.
    #[verifier::spinoff_prover]
    fn pillar_grow(&mut self, i: usize) -> (changed: bool)
        requires
            old(self).wf(),
            old(self).cave(),
            i < old(self).ent@.len(),
            old(self).ent@[i as int].act_life == 1,
        ensures
            final(self).wf(),
            old(self).regs_eq(final(self)),
            ({
                let (p, e, ch, sound) = pillar_spec(old(self).t@, old(self).ent@[i as int]);
                &&& final(self).t@ == p
                &&& final(self).ent@ == old(self).ent@.update(i as int, e)
                &&& changed == ch
                &&& final(self).sounds@ == old(self).sounds@.push((47u8, i as u16))
            }),
    {
        let ghost e0 = self.ent@[i as int];
        let (ex, ey, kx, ky, nx, ny, s) = self.pillar_frame(i);
        let along_x = self.ent[i].f44 != 0;
        let ez = self.ent[i].z as i32;
        self.snd(47, i);
        let ec = tile(ex, ey);
        let mut z1 = s + self.t.height[ec] as i32 + 1;
        let mut z2 = self.t.ceiling[ec] as i32 - s - 1;
        if z1 < 0 {
            z1 = 0;
        }
        if z1 > ez {
            z1 = ez;
        }
        if ez > z2 {
            z2 = ez;
        }
        if z2 > 254 {
            z2 = 254;
        }
        proof {
            let (t1, t2) = grow_targets(old(self).t@, e0);
            assert(z1 as int == t1 && z2 as int == t2);
        }
        let moved = self.pillar_pass(kx, ky, nx, ny, 1, s, z1, z2, along_x);
        if !moved {
            self.ent[i].act_life = 3;
        }
        proof {
            if moved {
                assert(self.ent@ =~= old(self).ent@.update(i as int, e0));
            }
        }
        moved
    }

    /// RETRACT toward the flank profile; all still -> life 4.
    #[verifier::spinoff_prover]
    fn pillar_retract(&mut self, i: usize) -> (changed: bool)
        requires
            old(self).wf(),
            old(self).cave(),
            i < old(self).ent@.len(),
            old(self).ent@[i as int].act_life == 2,
        ensures
            final(self).wf(),
            old(self).regs_eq(final(self)),
            ({
                let (p, e, ch, sound) = pillar_spec(old(self).t@, old(self).ent@[i as int]);
                &&& final(self).t@ == p
                &&& final(self).ent@ == old(self).ent@.update(i as int, e)
                &&& changed == ch
                &&& final(self).sounds@ == old(self).sounds@.push((47u8, i as u16))
            }),
    {
        let ghost e0 = self.ent@[i as int];
        let (ex, ey, kx, ky, nx, ny, s) = self.pillar_frame(i);
        let along_x = self.ent[i].f44 != 0;
        self.snd(47, i);
        let moved = self.pillar_pass(kx, ky, nx, ny, 2, s, 0, 0, along_x);
        if !moved {
            self.ent[i].act_life = 4;
        }
        proof {
            if moved {
                assert(self.ent@ =~= old(self).ent@.update(i as int, e0));
            }
        }
        moved
    }

    /// The (14,2) cave pillar tick, a floor-to-ceiling column machine on
    /// the entity's life: see [`pillar_spec`]. Returns whether terrain
    /// changed.
    pub fn mc2_pillar_tick(&mut self, i: usize) -> (changed: bool)
        requires
            old(self).wf(),
            i < old(self).ent@.len(),
            (old(self).ent@[i as int].act_life == 1 || old(self).ent@[i as int].act_life == 2)
                ==> old(self).cave(),
        ensures
            final(self).wf(),
            old(self).regs_eq(final(self)),
            ({
                let (p, e, ch, sound) = pillar_spec(old(self).t@, old(self).ent@[i as int]);
                &&& final(self).t@ == p
                &&& final(self).ent@ == old(self).ent@.update(i as int, e)
                &&& changed == ch
                &&& final(self).sounds@ == if sound {
                    old(self).sounds@.push((47u8, i as u16))
                } else {
                    old(self).sounds@
                }
            }),
    {
        let life = self.ent[i].act_life;
        if life == 0 {
            self.pillar_measure(i)
        } else if life == 1 {
            self.pillar_grow(i)
        } else if life == 2 {
            self.pillar_retract(i)
        } else {
            proof {
                assert(self.ent@ =~= old(self).ent@.update(i as int, old(self).ent@[i as int]));
            }
            false
        }
    }
}

/// On a cave cell whose floor is above 0, the invariant leaves bit3 set
/// exactly when the ceiling does not clear the floor, and running it
/// again changes nothing.
pub proof fn seal_fixup_settles(p: PlaneView, t: int)
    requires
        p.wf(),
        p.ce.len() != 0,
        0 <= t < PLANE_CELLS,
        p.h[t] >= 1,
    ensures
        (seal_view(p, t).an[t] & 8u8 != 0) <==> seal_view(p, t).ce[t] <= seal_view(p, t).h[t],
        seal_view(seal_view(p, t), t) == seal_view(p, t),
{
    let a = p.an[t];
    lemma_bit3(a);
    let q = seal_view(p, t);
    if p.ce[t] > p.h[t] {
        assert(seal_view(q, t).an =~= q.an);
    } else {
        assert(seal_view(q, t).an =~= q.an);
        assert(seal_view(q, t).ce =~= q.ce);
    }
}


/// The shared cave sculptor base in slot content `e`: class 10, life
/// 16, phase 0, radius 2, placed at (x, y) with the z = 0 sentinel,
/// bit 0 set and bit 3 (targetable) clear.
pub open spec fn sculptor_base(e: Ent, x: u16, y: u16) -> Ent {
    Ent {
        class64: 10,
        act_life: 16,
        f71: 0,
        dest_x: 2,
        site_z: 0,
        flags: (e.flags | 1) & 0xFFFF_FFF7u32,
        x,
        y,
        z: 0,
        ..e
    }
}

impl Gen {
    /// The shared cave sculptor base (see [`sculptor_base`]) in `slot`,
    /// the pool slot the engine's allocator handed out (`None` when the
    /// pool is full); off a cave nothing spawns.
    fn mc2_spawn_pit_hill_base(&mut self, x: u16, y: u16, slot: Option<usize>) -> (r: Option<usize>)
        requires
            old(self).cave() && slot is Some ==> slot->0 < old(self).ent@.len(),
        ensures
            r == if old(self).cave() { slot } else { None },
            old(self).frame_ent(final(self)),
            r is None ==> final(self).ent == old(self).ent,
            r matches Some(i) ==> final(self).ent@ == old(self).ent@.update(i as int, sculptor_base(old(self).ent@[i as int], x, y)),
    {
        if !self.is_cave() {
            return None;
        }
        let i = match slot {
            Some(i) => i,
            None => return None,
        };
        let mut e = self.ent[i];
        e.class64 = 10;
        e.act_life = 16;
        e.f71 = 0;
        e.dest_x = 2;
        e.site_z = 0;
        e.flags = (e.flags | 1) & 0xFFFF_FFF7;
        e.x = x;
        e.y = y;
        e.z = 0;
        self.ent.set(i, e);
        Some(i)
    }

    /// Set the model and action of a freshly spawned sculptor.
    fn mc2_sculptor_kind(&mut self, r: Option<usize>, model: u8, action: u8)
        requires
            r matches Some(i) ==> i < old(self).ent@.len(),
        ensures
            old(self).frame_ent(final(self)),
            r is None ==> final(self).ent == old(self).ent,
            r matches Some(i) ==> final(self).ent@ == old(self).ent@.update(i as int, Ent { model65: model, tick70: action, ..old(self).ent@[i as int] }),
    {
        if let Some(i) = r {
            let mut e = self.ent[i];
            e.model65 = model;
            e.tick70 = action;
            self.ent.set(i, e);
        }
    }

    /// The cave pit (model 0x54, action 0x5B) on the sculptor base; see
    /// [`Gen::mc2_spawn_cave_dome`] for `slot` and `_z`.
    pub fn mc2_spawn_cave_pit(&mut self, x: u16, y: u16, _z: i16, slot: Option<usize>) -> (r: Option<usize>)
        requires
            old(self).cave() && slot is Some ==> slot->0 < old(self).ent@.len(),
        ensures
            r == if old(self).cave() { slot } else { None },
            old(self).frame_ent(final(self)),
            r is None ==> final(self).ent == old(self).ent,
            r matches Some(i) ==> final(self).ent@ == old(self).ent@.update(i as int, Ent { model65: 0x54, tick70: 0x5B, ..sculptor_base(old(self).ent@[i as int], x, y) }),
    {
        let r = self.mc2_spawn_pit_hill_base(x, y, slot);
        self.mc2_sculptor_kind(r, 0x54, 0x5B);
        r
    }

    /// The cave hill (model 0x55, action 0x5C) on the sculptor base; see
    /// [`Gen::mc2_spawn_cave_dome`] for `slot` and `_z`.
    pub fn mc2_spawn_cave_hill(&mut self, x: u16, y: u16, _z: i16, slot: Option<usize>) -> (r: Option<usize>)
        requires
            old(self).cave() && slot is Some ==> slot->0 < old(self).ent@.len(),
        ensures
            r == if old(self).cave() { slot } else { None },
            old(self).frame_ent(final(self)),
            r is None ==> final(self).ent == old(self).ent,
            r matches Some(i) ==> final(self).ent@ == old(self).ent@.update(i as int, Ent { model65: 0x55, tick70: 0x5C, ..sculptor_base(old(self).ent@[i as int], x, y) }),
    {
        let r = self.mc2_spawn_pit_hill_base(x, y, slot);
        self.mc2_sculptor_kind(r, 0x55, 0x5C);
        r
    }

    /// The animated cave dome (model 0x53, action 0x5A) on the sculptor
    /// base. `slot` is the pool slot the engine's allocator handed out
    /// (`None` when the pool is full); off a cave nothing spawns and the
    /// slot is left alone. The requested `_z` is not read: the base sets the
    /// z = 0 sentinel.
    pub fn mc2_spawn_cave_dome(&mut self, x: u16, y: u16, _z: i16, slot: Option<usize>) -> (r: Option<usize>)
        requires
            old(self).cave() && slot is Some ==> slot->0 < old(self).ent@.len(),
        ensures
            r == if old(self).cave() { slot } else { None },
            old(self).frame_ent(final(self)),
            r is None ==> final(self).ent == old(self).ent,
            r matches Some(i) ==> final(self).ent@ == old(self).ent@.update(i as int, Ent { model65: 0x53, tick70: 0x5A, ..sculptor_base(old(self).ent@[i as int], x, y) }),
    {
        let r = self.mc2_spawn_pit_hill_base(x, y, slot);
        self.mc2_sculptor_kind(r, 0x53, 0x5A);
        r
    }
}

} // verus!
