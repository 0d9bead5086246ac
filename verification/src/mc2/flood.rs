//! The (10,67) flood/quake's terrain and entity predicates: the
//! burnable-to-lava set, the 4-corner height mean, the neighbour-mean
//! settle, the per-cell shading, the shove-victim filter, the XY box
//! overlap, and the init probe.

use vstd::prelude::*;
use crate::world::{
    Ent, Gen, PlaneView, F_NO_CORPSE, center_byte, center_spec, chain, tile, tile_spec,
};
use crate::mc2::cave::{box_cells, lemma_box_cell, lemma_byte_inc, sync_view};

verus! {

/// The tossed/handled latch the quake sets on its victims.
pub const F_TOSSED: u32 = 0x8000_0000;

/// The quake grab latch (shared with the no-corpse bit).
pub const F_QUAKE_GRAB: u32 = F_NO_CORPSE;

/// The damage pass's burnable-to-lava terrain types: {10, 11, 12} and
/// {21..27}.
pub open spec fn burn_spec(t: u8) -> bool {
    (10 <= t <= 12) || (21 <= t <= 27)
}

/// Does terrain type `t` burn to lava under the quake?
pub fn burn_flags(t: u8) -> (r: bool)
    ensures
        r == burn_spec(t),
{
    (10 <= t && t <= 12) || (21 <= t && t <= 27)
}

/// The byte offsets of the 8-neighbour ring, clockwise from north:
/// (0,-1), (1,-1), (1,0), (1,1), (0,1), (-1,1), (-1,0), (-1,-1).
pub open spec fn ring_dx(k: int) -> u8 {
    if k == 1 || k == 2 || k == 3 {
        1
    } else if k == 5 || k == 6 || k == 7 {
        255
    } else {
        0
    }
}

pub open spec fn ring_dy(k: int) -> u8 {
    if k == 0 || k == 1 || k == 7 {
        255
    } else if k == 3 || k == 4 || k == 5 {
        1
    } else {
        0
    }
}

/// The `k`-th ring cell around (x, y).
pub open spec fn ring_cell(x: int, y: int, k: int) -> int {
    tile_spec((x + ring_dx(k)) % 256, (y + ring_dy(k)) % 256)
}

/// The highest of `own` and the first `n` ring heights.
pub open spec fn ring_max(h: Seq<u8>, x: int, y: int, n: int, own: u8) -> u8
    decreases n,
{
    if n <= 0 {
        own
    } else {
        let m = ring_max(h, x, y, n - 1, own);
        let v = h[ring_cell(x, y, n - 1)];
        if v > m { v } else { m }
    }
}

/// The lowest of `own` and the first `n` ring heights.
pub open spec fn ring_min(h: Seq<u8>, x: int, y: int, n: int, own: u8) -> u8
    decreases n,
{
    if n <= 0 {
        own
    } else {
        let m = ring_min(h, x, y, n - 1, own);
        let v = h[ring_cell(x, y, n - 1)];
        if v < m { v } else { m }
    }
}

/// The sum of the first `n` ring heights.
pub open spec fn ring_sum(h: Seq<u8>, x: int, y: int, n: int) -> int
    decreases n,
{
    if n <= 0 {
        0
    } else {
        ring_sum(h, x, y, n - 1) + h[ring_cell(x, y, n - 1)]
    }
}

/// The neighbour-mean restore of one cell: cells whose low angle bits
/// are 0 keep their height; otherwise the spread to the ring picks
/// the own height, a half-blend with the ring mean, or the mean.
pub open spec fn settle_spec(p: PlaneView, x: int, y: int) -> u8 {
    let t = tile_spec(x, y);
    let own = p.h[t];
    if p.an[t] & 7u8 == 0 {
        own
    } else {
        let mx = ring_max(p.h, x, y, 8, own);
        let mn = ring_min(p.h, x, y, 8, own);
        let mean = ring_sum(p.h, x, y, 8) / 8;
        if own - mn <= 4 {
            if mx - own <= 4 {
                own
            } else if mx - own <= 10 {
                ((own + mean) / 2) as u8
            } else {
                mean as u8
            }
        } else if own - mn <= 10 {
            ((own + mean) / 2) as u8
        } else {
            mean as u8
        }
    }
}

/// The flood's per-cell shading from the NW and SE heights: `nw - se +
/// 32` folded into the 28..=47 bands, flipped as `64 - v` on non-Day
/// maps.
pub open spec fn shade_spec(nw: int, se: int, night: bool) -> u8 {
    let v = (nw - se + 32) as i32;
    let w = if v >= 28 {
        if v > 40 { (v & 7i32) + 40 } else { v as int }
    } else {
        (v & 3i32) + 28
    };
    if night { (64 - w) as u8 } else { w as u8 }
}

/// The planes after the flood shaded cell (x, y): the shading byte, and
/// on caves the bit3 sync.
pub open spec fn shade_view(p: PlaneView, x: int, y: int, night: bool) -> PlaneView {
    let t = tile_spec(x, y);
    let nw = p.h[tile_spec((x + 255) % 256, (y + 255) % 256)] as int;
    let se = p.h[tile_spec((x + 1) % 256, (y + 1) % 256)] as int;
    let q = PlaneView { sh: p.sh.update(t, shade_spec(nw, se, night)), ..p };
    if q.ce.len() == 0 { q } else { sync_view(q, t) }
}

/// The shove-victim filter: which entity `j` the quake at `i` may push.
pub open spec fn shovable_spec(ents: Seq<Ent>, i: int, j: int) -> bool {
    let e = ents[j];
    let held = e.flags & (F_TOSSED | 0x20u32) != 0;
    let c = e.class64;
    if c == 1 || c == 4 || c == 6 || c == 7 || c == 8 || c == 11 || c == 12 || c == 13 || c == 15 {
        false
    } else if c == 2 {
        true
    } else if c == 3 {
        if e.model65 == 0 {
            e.id24 != ents[i].id24
        } else if e.model65 == 1 {
            !held && e.id24 != ents[i].id24
        } else {
            e.model65 != 2
        }
    } else if c == 5 {
        !held && e.tick70 != 232 && (if e.model65 == 0x16 {
            false
        } else if e.model65 == 27 {
            !(e.tick70 == 233 || e.tick70 == 234)
        } else {
            true
        })
    } else if c == 9 {
        e.model65 == 0 || e.model65 == 13 || e.model65 == 14
    } else if c == 10 {
        e.model65 == 6 || e.model65 == 0x27 || e.model65 == 0x28 || e.model65 == 57
    } else if c == 14 {
        !held && e.model65 != 1
    } else {
        true
    }
}

/// The wrapped 16-bit axis distance `|(p - q) as i16|`.
pub open spec fn axis_dist(p: u16, q: u16) -> int {
    let d = (((p - q) % 65536) as u16) as i16;
    if d < 0 { -d } else { d as int }
}

/// The XY box overlap of two entities: each wrapped axis distance below
/// the sum of their half-extents (f80 on x, f82 on y); no z term.
pub open spec fn overlap_xy_spec(a: Ent, b: Ent) -> bool {
    &&& axis_dist(a.x, b.x) < a.f80 + b.f80
    &&& axis_dist(a.y, b.y) < a.f82 + b.f82
}

/// The number of cells of `cells` whose terrain type is `v`.
pub open spec fn count_type(ty: Seq<u8>, cells: Seq<int>, v: u8) -> nat
    decreases cells.len(),
{
    if cells.len() == 0 {
        0
    } else {
        count_type(ty, cells.drop_last(), v) + if ty[cells.last()] == v { 1nat } else { 0nat }
    }
}

/// A live quake that blocks another: class 10 and model 67, or model
/// 0x2D (a building) in action 48 or 51; never the prober itself.
pub open spec fn quake_blocker(ents: Seq<Ent>, i: int, j: int) -> bool {
    let e = ents[j];
    &&& j != i
    &&& e.class64 == 10
    &&& (e.model65 == 67 || (e.model65 == 0x2D && (e.tick70 == 48 || e.tick70 == 51)))
}

/// Some entity of the cell chain from `start` blocks the quake at `i`.
pub open spec fn chain_blocked(ents: Seq<Ent>, i: int, start: int) -> bool {
    let c = chain(ents, start, ents.len());
    exists|m: int| 0 <= m < c.len() && quake_blocker(ents, i, #[trigger] c[m])
}

/// The init probe: fewer than 225 of the 30x30 footprint cells are
/// open ground (type 0), and no cell chain of the 54x54 window holds a
/// blocking quake.
pub open spec fn probe_spec(g: Gen, i: int) -> bool {
    let e = g.ent@[i];
    let cx = center_spec(e.x);
    let cy = center_spec(e.y);
    let inner = box_cells((cx + 241) % 256, (cy + 241) % 256, 30, 30);
    let window = box_cells((cx + 229) % 256, (cy + 229) % 256, 54, 54);
    &&& count_type(g.t.tile_type@, inner, 0) < 225
    &&& forall|k: int| 0 <= k < window.len() ==> !chain_blocked(g.ent@, i, g.map_entity@[#[trigger] window[k]] as int)
}

/// The byte offsets of ring step `k`.
fn ring_offset(k: u8) -> (r: (u8, u8))
    requires
        k < 8,
    ensures
        r.0 == ring_dx(k as int),
        r.1 == ring_dy(k as int),
{
    match k {
        0 => (0, 255),
        1 => (1, 255),
        2 => (1, 0),
        3 => (1, 1),
        4 => (0, 1),
        5 => (255, 1),
        6 => (255, 0),
        _ => (255, 255),
    }
}

impl Gen {
    /// The 4-corner mean (truncating) of the box (x, y)..(x+w, y+h).
    pub fn flood_corner_mean(&self, x: u8, y: u8, w: u8, h: u8) -> (r: i32)
        requires
            self.wf(),
        ensures
            ({
                let hh = self.t.height@;
                r == (hh[tile_spec(x as int, y as int)] + hh[tile_spec((x + w) % 256, y as int)]
                    + hh[tile_spec((x + w) % 256, (y + h) % 256)] + hh[tile_spec(x as int, (y + h) % 256)]) / 4
            }),
    {
        let s = self.t.height[tile(x, y)] as i32 + self.t.height[tile(x.wrapping_add(w), y)] as i32
            + self.t.height[tile(x.wrapping_add(w), y.wrapping_add(h))] as i32
            + self.t.height[tile(x, y.wrapping_add(h))] as i32;
        assert(0 <= s <= 1020 ==> s >> 2i32 == s / 4) by (bit_vector);
        s >> 2
    }

    /// The neighbour-mean restore height of cell (x, y): see
    /// [`settle_spec`].
    #[verifier::spinoff_prover]
    #[verifier::rlimit(30)]
    pub fn flood_settle_cell(&self, x: u8, y: u8) -> (r: u8)
        requires
            self.wf(),
        ensures
            r == settle_spec(self.t@, x as int, y as int),
    {
        let t = tile(x, y);
        let own = self.t.height[t];
        if self.t.angle[t] & 7 == 0 {
            return own;
        }
        let ghost hs = self.t.height@;
        let mut mx = own;
        let mut mn = own;
        let mut sum: u32 = 0;
        let mut k: u8 = 0;
        while k < 8
            invariant
                self.wf(),
                hs == self.t.height@,
                k <= 8,
                mx == ring_max(hs, x as int, y as int, k as int, own),
                mn == ring_min(hs, x as int, y as int, k as int, own),
                sum == ring_sum(hs, x as int, y as int, k as int),
                sum <= 255 * k,
            decreases 8 - k,
        {
            let (dx, dy) = ring_offset(k);
            let h = self.t.height[tile(x.wrapping_add(dx), y.wrapping_add(dy))];
            if h > mx {
                mx = h;
            }
            if h < mn {
                mn = h;
            }
            sum = sum + h as u32;
            k += 1;
        }
        let mean = sum >> 3;
        assert(sum >> 3u32 == sum / 8) by (bit_vector);
        proof {
            lemma_ring_bounds(hs, x as int, y as int, 8, own);
        }
        let lo = own - mn;
        let hi = mx - own;
        let bsum = own as u32 + mean;
        let blend = bsum >> 1;
        assert(bsum >> 1u32 == bsum / 2) by (bit_vector);
        if lo <= 4 {
            if hi <= 4 {
                own
            } else if hi <= 10 {
                blend as u8
            } else {
                mean as u8
            }
        } else if lo <= 10 {
            blend as u8
        } else {
            mean as u8
        }
    }

    /// The flood's in-place shading of cell (x, y), with the cave bit3
    /// sync: see [`shade_view`].
    pub fn flood_shade_cell(&mut self, x: u8, y: u8)
        requires
            old(self).wf(),
        ensures
            final(self).wf(),
            final(self).t@ == shade_view(old(self).t@, x as int, y as int, old(self).mc2_night_shade),
            old(self).frame_planes(final(self)),
    {
        let nw = self.t.height[tile(x.wrapping_sub(1), y.wrapping_sub(1))] as i32;
        let se = self.t.height[tile(x.wrapping_add(1), y.wrapping_add(1))] as i32;
        assert(x.wrapping_sub(1) as int == (x + 255) % 256);
        assert(y.wrapping_sub(1) as int == (y + 255) % 256);
        let mut v = nw - se + 32;
        assert(0 <= (v & 7i32) < 8) by (bit_vector);
        assert(0 <= (v & 3i32) < 4) by (bit_vector);
        if v >= 28 {
            if v > 40 {
                v = (v & 7) + 40;
            }
        } else {
            v = (v & 3) + 28;
        }
        if self.mc2_night_shade {
            v = 64 - v;
        }
        let t = tile(x, y);
        let ghost p0 = self.t@;
        self.t.shading.set(t, v as u8);
        let ghost p1 = self.t@;
        assert(p1.sh =~= p0.sh.update(t as int, shade_spec(nw as int, se as int, self.mc2_night_shade)));
        if self.t.ceiling.len() != 0 {
            let a = self.t.angle[t];
            if self.t.ceiling[t] > self.t.height[t] {
                self.t.angle.set(t, a & 0xF7u8);
            } else {
                self.t.angle.set(t, a | 8u8);
            }
            assert(self.t@.an =~= sync_view(p1, t as int).an);
        }
    }

    /// The shove-victim filter: see [`shovable_spec`].
    pub fn flood_shovable(&self, i: usize, j: usize) -> (r: bool)
        requires
            i < self.ent@.len(),
            j < self.ent@.len(),
        ensures
            r == shovable_spec(self.ent@, i as int, j as int),
    {
        let e = &self.ent[j];
        let held = e.flags & (F_TOSSED | 0x20) != 0;
        let c = e.class64;
        if c == 1 || c == 4 || c == 6 || c == 7 || c == 8 || c == 11 || c == 12 || c == 13 || c == 15 {
            false
        } else if c == 2 {
            true
        } else if c == 3 {
            if e.model65 == 0 {
                e.id24 != self.ent[i].id24
            } else if e.model65 == 1 {
                !held && e.id24 != self.ent[i].id24
            } else {
                e.model65 != 2
            }
        } else if c == 5 {
            !held && e.tick70 != 232 && (if e.model65 == 0x16 {
                false
            } else if e.model65 == 27 {
                !(e.tick70 == 233 || e.tick70 == 234)
            } else {
                true
            })
        } else if c == 9 {
            e.model65 == 0 || e.model65 == 13 || e.model65 == 14
        } else if c == 10 {
            e.model65 == 6 || e.model65 == 0x27 || e.model65 == 0x28 || e.model65 == 57
        } else if c == 14 {
            !held && e.model65 != 1
        } else {
            true
        }
    }

    /// The XY-only box overlap of entities `a` and `b`: see
    /// [`overlap_xy_spec`].
    pub fn mc2_overlap_xy(&self, a: usize, b: usize) -> (r: bool)
        requires
            a < self.ent@.len(),
            b < self.ent@.len(),
        ensures
            r == overlap_xy_spec(self.ent@[a as int], self.ent@[b as int]),
    {
        let ea = &self.ent[a];
        let eb = &self.ent[b];
        let dx = axis_wd(ea.x, eb.x);
        let dy = axis_wd(ea.y, eb.y);
        dx < ea.f80 as i32 + eb.f80 as i32 && dy < ea.f82 as i32 + eb.f82 as i32
    }

    /// Does some entity of the cell chain from `start` block the quake
    /// at `i`?
    #[verifier::spinoff_prover]
    #[verifier::rlimit(30)]
    fn chain_has_quake(&self, i: usize, start: u16) -> (r: bool)
        requires
            self.wf(),
        ensures
            r == chain_blocked(self.ent@, i as int, start as int),
    {
        let ghost ents = self.ent@;
        let ghost full = chain(ents, start as int, ents.len());
        let n = self.ent.len();
        let mut j = start as usize;
        let mut steps: usize = 0;
        while j != 0 && steps < n
            invariant
                self.wf(),
                ents == self.ent@,
                n == ents.len(),
                steps <= n,
                j < n || (j == start && steps == 0),
                full == chain(ents, start as int, n as nat),
                steps <= full.len(),
                full.skip(steps as int) == chain(ents, j as int, (n - steps) as nat),
                forall|m: int| 0 <= m < steps ==> !quake_blocker(ents, i as int, #[trigger] full[m]),
            decreases n - steps,
        {
            if j >= n {
                return false;
            }
            proof {
                assert(chain(ents, j as int, (n - steps) as nat).len() >= 1);
                assert(chain(ents, j as int, (n - steps) as nat)[0] == j);
                assert(full.skip(steps as int).len() >= 1);
                assert(full.skip(steps as int)[0] == j);
                assert(full[steps as int] == j);
            }
            let e = &self.ent[j];
            if j != i && e.class64 == 10
                && (e.model65 == 67 || (e.model65 == 0x2D && (e.tick70 == 48 || e.tick70 == 51)))
            {
                assert(quake_blocker(ents, i as int, full[steps as int]));
                return true;
            }
            proof {
                let rest = chain(ents, e.next20 as int, (n - steps - 1) as nat);
                assert(chain(ents, j as int, (n - steps) as nat) == seq![j as int] + rest);
                assert(full.skip(steps as int + 1) =~= full.skip(steps as int).skip(1));
                assert(full.skip(steps as int).skip(1) =~= rest);
            }
            j = e.next20 as usize;
            steps += 1;
        }
        proof {
            if j >= n {
                assert(full =~= Seq::<int>::empty());
            }
            assert(full.skip(steps as int).len() == 0);
            assert(full.len() == steps);
        }
        false
    }

    /// The number of open-ground (type 0) cells of the 30x30 box at
    /// (kx, ky).
    #[verifier::spinoff_prover]
    #[verifier::rlimit(30)]
    fn flood_open_count(&self, kx: u8, ky: u8) -> (r: u32)
        requires
            self.wf(),
        ensures
            r == count_type(self.t.tile_type@, box_cells(kx as int, ky as int, 30, 30), 0),
    {
        let ghost inner = box_cells(kx as int, ky as int, 30, 30);
        let ghost ty = self.t.tile_type@;
        let mut open: u32 = 0;
        let mut y = ky;
        let mut row: u32 = 0;
        while row < 30
            invariant
                self.wf(),
                ty == self.t.tile_type@,
                inner == box_cells(kx as int, ky as int, 30, 30),
                row <= 30,
                y as int == (ky + row) % 256,
                open == count_type(ty, inner.take(row * 30), 0),
                open <= row * 30,
            decreases 30 - row,
        {
            let mut x = kx;
            let mut col: u32 = 0;
            while col < 30
                invariant
                    self.wf(),
                    ty == self.t.tile_type@,
                    inner == box_cells(kx as int, ky as int, 30, 30),
                    row < 30,
                    col <= 30,
                    y as int == (ky + row) % 256,
                    x as int == (kx + col) % 256,
                    open == count_type(ty, inner.take(row * 30 + col), 0),
                    open <= row * 30 + col,
                decreases 30 - col,
            {
                proof {
                    lemma_box_cell(kx as int, ky as int, 30, 30, row as int, col as int);
                    let k = row * 30 + col;
                    assert(inner.take(k + 1).drop_last() =~= inner.take(k));
                }
                if self.t.tile_type[tile(x, y)] == 0 {
                    open += 1;
                }
                proof {
                    lemma_byte_inc(kx as int, col as int);
                }
                x = x.wrapping_add(1);
                col += 1;
            }
            proof {
                lemma_byte_inc(ky as int, row as int);
            }
            y = y.wrapping_add(1);
            row += 1;
        }
        assert(inner.take(900) =~= inner);
        open
    }

    /// No cell chain of the 54x54 window at (wx, wy) holds a quake that
    /// blocks the one at `i`.
    #[verifier::spinoff_prover]
    #[verifier::rlimit(30)]
    fn flood_window_clear(&self, i: usize, wx: u8, wy: u8) -> (r: bool)
        requires
            self.wf(),
            i < self.ent@.len(),
        ensures
            r == (forall|k: int| 0 <= k < 54 * 54 ==> !chain_blocked(self.ent@, i as int,
                self.map_entity@[#[trigger] box_cells(wx as int, wy as int, 54, 54)[k]] as int)),
    {
        let ghost window = box_cells(wx as int, wy as int, 54, 54);
        let mut y = wy;
        let mut row: u32 = 0;
        while row < 54
            invariant
                self.wf(),
                i < self.ent@.len(),
                window == box_cells(wx as int, wy as int, 54, 54),
                row <= 54,
                y as int == (wy + row) % 256,
                forall|k: int| 0 <= k < row * 54 ==> !chain_blocked(self.ent@, i as int, self.map_entity@[#[trigger] window[k]] as int),
            decreases 54 - row,
        {
            let mut x = wx;
            let mut col: u32 = 0;
            while col < 54
                invariant
                    self.wf(),
                    i < self.ent@.len(),
                    window == box_cells(wx as int, wy as int, 54, 54),
                    row < 54,
                    col <= 54,
                    y as int == (wy + row) % 256,
                    x as int == (wx + col) % 256,
                    forall|k: int| 0 <= k < row * 54 + col ==> !chain_blocked(self.ent@, i as int, self.map_entity@[#[trigger] window[k]] as int),
                decreases 54 - col,
            {
                proof {
                    lemma_box_cell(wx as int, wy as int, 54, 54, row as int, col as int);
                }
                let t = tile(x, y);
                if self.chain_has_quake(i, self.map_entity[t]) {
                    proof {
                        let k = row * 54 + col;
                        assert(window[k as int] == t as int);
                        assert(chain_blocked(self.ent@, i as int, self.map_entity@[window[k as int]] as int));
                    }
                    return false;
                }
                proof {
                    lemma_byte_inc(wx as int, col as int);
                }
                x = x.wrapping_add(1);
                col += 1;
            }
            proof {
                lemma_byte_inc(wy as int, row as int);
            }
            y = y.wrapping_add(1);
            row += 1;
        }
        true
    }

    /// The quake's init probe: see [`probe_spec`].
    pub fn flood_probe(&self, i: usize) -> (r: bool)
        requires
            self.wf(),
            i < self.ent@.len(),
        ensures
            r == probe_spec(*self, i as int),
    {
        let cx = center_byte(self.ent[i].x);
        let cy = center_byte(self.ent[i].y);
        let kx = cx.wrapping_sub(15);
        let ky = cy.wrapping_sub(15);
        assert(kx as int == (cx + 241) % 256);
        assert(ky as int == (cy + 241) % 256);
        if self.flood_open_count(kx, ky) >= 225 {
            return false;
        }
        let wx = cx.wrapping_sub(27);
        let wy = cy.wrapping_sub(27);
        assert(wx as int == (cx + 229) % 256);
        assert(wy as int == (cy + 229) % 256);
        self.flood_window_clear(i, wx, wy)
    }
}

/// The wrapped axis distance of two engine coordinates.
pub(crate) fn axis_wd(p: u16, q: u16) -> (r: i32)
    ensures
        r == axis_dist(p, q),
{
    let d = p.wrapping_sub(q) as i16 as i32;
    if d < 0 {
        -d
    } else {
        d
    }
}

/// The running max/min bracket the own height.
proof fn lemma_ring_bounds(h: Seq<u8>, x: int, y: int, n: int, own: u8)
    ensures
        ring_min(h, x, y, n, own) <= own <= ring_max(h, x, y, n, own),
    decreases n,
{
    if n > 0 {
        lemma_ring_bounds(h, x, y, n - 1, own);
    }
}


/// The ring sum lies between `n` times the lowest and `n` times the
/// highest of the cell and its first `n` ring heights.
proof fn lemma_ring_sum_bounds(h: Seq<u8>, x: int, y: int, n: int, own: u8)
    requires
        0 <= n,
    ensures
        n * ring_min(h, x, y, n, own) <= ring_sum(h, x, y, n) <= n * ring_max(h, x, y, n, own),
    decreases n,
{
    if n > 0 {
        lemma_ring_sum_bounds(h, x, y, n - 1, own);
        let a = ring_min(h, x, y, n - 1, own) as int;
        let b = ring_max(h, x, y, n - 1, own) as int;
        let a2 = ring_min(h, x, y, n, own) as int;
        let b2 = ring_max(h, x, y, n, own) as int;
        let v = h[ring_cell(x, y, n - 1)] as int;
        let s = ring_sum(h, x, y, n - 1);
        assert(a2 <= a && a2 <= v && b <= b2 && v <= b2);
        assert(n * a2 <= s + v && s + v <= n * b2) by (nonlinear_arith)
            requires
                (n - 1) * a <= s <= (n - 1) * b,
                a2 <= a,
                a2 <= v,
                b <= b2,
                v <= b2,
                n >= 1,
        ;
    }
}

/// A settled height lies between the lowest and the highest of the cell
/// and its eight neighbours.
pub proof fn settle_stays_in_range(p: PlaneView, x: int, y: int)
    ensures
        ({
            let own = p.h[tile_spec(x, y)];
            ring_min(p.h, x, y, 8, own) <= settle_spec(p, x, y) <= ring_max(p.h, x, y, 8, own)
        }),
{
    let own = p.h[tile_spec(x, y)];
    let mn = ring_min(p.h, x, y, 8, own) as int;
    let mx = ring_max(p.h, x, y, 8, own) as int;
    let sum = ring_sum(p.h, x, y, 8);
    lemma_ring_bounds(p.h, x, y, 8, own);
    lemma_ring_sum_bounds(p.h, x, y, 8, own);
    let mean = sum / 8;
    assert(mn <= mean <= mx) by (nonlinear_arith)
        requires
            8 * mn <= sum <= 8 * mx,
            mean == sum / 8,
    ;
    assert(mn <= (own + mean) / 2 <= mx);
    assert(0 <= mn && mx <= 255);
}


/// The height of the neighbour of (x, y) at offset (dx, dy), both axes
/// wrapping at 256.
pub open spec fn nb_h(h: Seq<u8>, x: int, y: int, dx: int, dy: int) -> int {
    h[tile_spec((x + dx) % 256, (y + dy) % 256)] as int
}

/// One of the eight neighbour offsets.
pub open spec fn is_nb(dx: int, dy: int) -> bool {
    -1 <= dx <= 1 && -1 <= dy <= 1 && (dx != 0 || dy != 0)
}

/// The sum of the eight neighbour heights of (x, y).
pub open spec fn nb_sum(h: Seq<u8>, x: int, y: int) -> int {
    nb_h(h, x, y, 0, -1) + nb_h(h, x, y, 1, -1) + nb_h(h, x, y, 1, 0) + nb_h(h, x, y, 1, 1) + nb_h(h, x, y, 0, 1) + nb_h(h, x, y, -1, 1) + nb_h(h, x, y, -1, 0) + nb_h(h, x, y, -1, -1)
}

/// The ring cells are the eight neighbours.
proof fn lemma_ring_nbrs(h: Seq<u8>, x: int, y: int)
    requires
        0 <= x < 256,
        0 <= y < 256,
    ensures
        h[ring_cell(x, y, 0)] as int == nb_h(h, x, y, 0, -1),
        h[ring_cell(x, y, 1)] as int == nb_h(h, x, y, 1, -1),
        h[ring_cell(x, y, 2)] as int == nb_h(h, x, y, 1, 0),
        h[ring_cell(x, y, 3)] as int == nb_h(h, x, y, 1, 1),
        h[ring_cell(x, y, 4)] as int == nb_h(h, x, y, 0, 1),
        h[ring_cell(x, y, 5)] as int == nb_h(h, x, y, -1, 1),
        h[ring_cell(x, y, 6)] as int == nb_h(h, x, y, -1, 0),
        h[ring_cell(x, y, 7)] as int == nb_h(h, x, y, -1, -1),
        ring_sum(h, x, y, 8) == nb_sum(h, x, y),
{
    assert((x + 255) % 256 == (x - 1) % 256);
    assert((y + 255) % 256 == (y - 1) % 256);
    reveal_with_fuel(ring_sum, 9);
}

/// Facts every settle law starts from: the ring unfolded over the eight
/// neighbours, each a height.
proof fn lemma_settle_ring(p: PlaneView, x: int, y: int)
    requires
        0 <= x < 256,
        0 <= y < 256,
    ensures
        forall|dx: int, dy: int| #![trigger nb_h(p.h, x, y, dx, dy)] is_nb(dx, dy) ==> {
            let own = p.h[tile_spec(x, y)];
            &&& ring_min(p.h, x, y, 8, own) <= nb_h(p.h, x, y, dx, dy) <= ring_max(p.h, x, y, 8, own)
        },
{
    lemma_ring_nbrs(p.h, x, y);
    reveal_with_fuel(ring_min, 9);
    reveal_with_fuel(ring_max, 9);
}

/// A cell whose low angle bits are clear keeps its height.
pub proof fn settle_keeps_level_cells(p: PlaneView, x: int, y: int)
    requires
        p.an[tile_spec(x, y)] & 7u8 == 0,
    ensures
        settle_spec(p, x, y) == p.h[tile_spec(x, y)],
{
}

/// A flagged cell with all eight neighbours within 4 of it keeps its
/// height.
pub proof fn settle_keeps_flat_cells(p: PlaneView, x: int, y: int)
    requires
        0 <= x < 256,
        0 <= y < 256,
        p.an[tile_spec(x, y)] & 7u8 != 0,
        forall|dx: int, dy: int| #![trigger nb_h(p.h, x, y, dx, dy)] is_nb(dx, dy) ==>
            p.h[tile_spec(x, y)] - 4 <= nb_h(p.h, x, y, dx, dy) <= p.h[tile_spec(x, y)] + 4,
    ensures
        settle_spec(p, x, y) == p.h[tile_spec(x, y)],
{
    lemma_ring_nbrs(p.h, x, y);
    reveal_with_fuel(ring_min, 9);
    reveal_with_fuel(ring_max, 9);
}

/// A flagged cell in a pit (no neighbour more than 4 below it, the
/// neighbour at (dx, dy) more than 10 above it) is lifted to the mean of
/// its eight neighbours.
pub proof fn settle_lifts_pits(p: PlaneView, x: int, y: int, dx: int, dy: int)
    requires
        0 <= x < 256,
        0 <= y < 256,
        p.an[tile_spec(x, y)] & 7u8 != 0,
        forall|ex: int, ey: int| #![trigger nb_h(p.h, x, y, ex, ey)] is_nb(ex, ey) ==>
            nb_h(p.h, x, y, ex, ey) >= p.h[tile_spec(x, y)] - 4,
        is_nb(dx, dy),
        nb_h(p.h, x, y, dx, dy) > p.h[tile_spec(x, y)] + 10,
    ensures
        settle_spec(p, x, y) == nb_sum(p.h, x, y) / 8,
{
    lemma_ring_nbrs(p.h, x, y);
    lemma_settle_ring(p, x, y);
    reveal_with_fuel(ring_min, 9);
    assert(ring_max(p.h, x, y, 8, p.h[tile_spec(x, y)]) >= nb_h(p.h, x, y, dx, dy));
}

/// A flagged cell on a mild step (no neighbour more than 4 below or 10
/// above it, the neighbour at (dx, dy) more than 4 above) moves halfway
/// to the mean of its eight neighbours.
pub proof fn settle_blends_mild_steps(p: PlaneView, x: int, y: int, dx: int, dy: int)
    requires
        0 <= x < 256,
        0 <= y < 256,
        p.an[tile_spec(x, y)] & 7u8 != 0,
        forall|ex: int, ey: int| #![trigger nb_h(p.h, x, y, ex, ey)] is_nb(ex, ey) ==>
            p.h[tile_spec(x, y)] - 4 <= nb_h(p.h, x, y, ex, ey) <= p.h[tile_spec(x, y)] + 10,
        is_nb(dx, dy),
        nb_h(p.h, x, y, dx, dy) > p.h[tile_spec(x, y)] + 4,
    ensures
        settle_spec(p, x, y) == (p.h[tile_spec(x, y)] + nb_sum(p.h, x, y) / 8) / 2,
{
    lemma_ring_nbrs(p.h, x, y);
    lemma_settle_ring(p, x, y);
    reveal_with_fuel(ring_min, 9);
    reveal_with_fuel(ring_max, 9);
}

/// A flagged cell on a mild bump (no neighbour more than 10 below it,
/// the neighbour at (dx, dy) more than 4 below) moves halfway to the
/// mean of its eight neighbours.
pub proof fn settle_blends_mild_bumps(p: PlaneView, x: int, y: int, dx: int, dy: int)
    requires
        0 <= x < 256,
        0 <= y < 256,
        p.an[tile_spec(x, y)] & 7u8 != 0,
        forall|ex: int, ey: int| #![trigger nb_h(p.h, x, y, ex, ey)] is_nb(ex, ey) ==>
            nb_h(p.h, x, y, ex, ey) >= p.h[tile_spec(x, y)] - 10,
        is_nb(dx, dy),
        nb_h(p.h, x, y, dx, dy) < p.h[tile_spec(x, y)] - 4,
    ensures
        settle_spec(p, x, y) == (p.h[tile_spec(x, y)] + nb_sum(p.h, x, y) / 8) / 2,
{
    lemma_ring_nbrs(p.h, x, y);
    lemma_settle_ring(p, x, y);
    reveal_with_fuel(ring_min, 9);
}

/// A flagged cell standing more than 10 above the neighbour at (dx, dy)
/// drops to the mean of its eight neighbours.
pub proof fn settle_levels_spikes(p: PlaneView, x: int, y: int, dx: int, dy: int)
    requires
        0 <= x < 256,
        0 <= y < 256,
        p.an[tile_spec(x, y)] & 7u8 != 0,
        is_nb(dx, dy),
        nb_h(p.h, x, y, dx, dy) < p.h[tile_spec(x, y)] - 10,
    ensures
        settle_spec(p, x, y) == nb_sum(p.h, x, y) / 8,
{
    lemma_ring_nbrs(p.h, x, y);
    lemma_settle_ring(p, x, y);
}

} // verus!
