//! The MC1 creature column's shared primitives: sprite and extent
//! setters, the terrain capability bit and local roughness the movement
//! core tests, the altitude clamp, the 11-bit angle helpers, the squared
//! distance, and the death, corpse, animation and burrower-disguise
//! steps.

use vstd::prelude::*;
use vstd::wrapping::{i16_specs, i32_specs, u16_specs, u32_specs, u8_specs};
use crate::world::{BehaviorRow, Ent, Gen, MobCtx, F_DEAD, seg_chain, seg_ends, tile_spec};

verus! {

/// Truncating integer division (Rust's `/` on signed values), `b > 0`.
pub open spec fn tdiv(a: int, b: int) -> int {
    if a >= 0 { a / b } else { -((-a) / b) }
}

/// Animation frame counts by sprite draw type: the 2..=16 animation
/// types carry their count in the type, view-select types have 1;
/// unknown types 0.
pub open spec fn frame_count_spec(d: u8) -> u8 {
    if d <= 1 {
        1
    } else if d <= 16 {
        d
    } else if d <= 21 {
        1
    } else if d <= 36 {
        (d - 20) as u8
    } else {
        0
    }
}

/// The frame count of sprite draw type `d`.
pub fn frame_count(d: u8) -> (r: u8)
    ensures
        r == frame_count_spec(d),
{
    if d <= 1 {
        1
    } else if d <= 16 {
        d
    } else if d <= 21 {
        1
    } else if d <= 36 {
        d - 20
    } else {
        0
    }
}

/// The terrain capability bit of a tile type: a creature may stand on
/// a tile iff its behavior row's mask has the bit.
pub open spec fn cap_bit_spec(t: u8) -> u32 {
    if t == 0 { 1 }
    else if t == 1 { 2 }
    else if t == 2 { 4 }
    else if t == 3 { 8 }
    else if t == 4 { 0x10 }
    else if t == 5 { 0x20 }
    else if t == 8 { 0x100 }
    else if t == 9 { 0x200 }
    else if t == 10 { 0x100000 }
    else if t == 11 { 0x200000 }
    else if t == 12 { 0x400000 }
    else if t == 13 || t == 14 { 0 }
    else if (15 <= t <= 20) || (28 <= t <= 34) { 0x400 }
    else if t == 21 || t == 22 || t == 24 { 0x20000 }
    else if t == 23 { 0x40000 }
    else if t == 25 || t == 27 { 0x80000 }
    else if t == 26 { 0x10000 }
    else { 0x800000 }
}

/// The altitude clamp toward the band `[ground + v_12, ground + v_10]`
/// (16-bit wrapping): above the band step by `v_14`, inside it by a
/// quarter step, never below the floor.
pub open spec fn alt_clamp_spec(z: i16, ground: i16, row: BehaviorRow) -> i16 {
    let top = i16_specs::wrapping_add(ground, row.v_10);
    let floor = i16_specs::wrapping_add(ground, row.v_12);
    let z1 = if z > top {
        i16_specs::wrapping_add(z, row.v_14)
    } else if z > floor {
        i16_specs::wrapping_add(z, tdiv(25 * row.v_14, 100) as i16)
    } else {
        z
    };
    if z1 < floor { floor } else { z1 }
}

/// The angular distance of two 11-bit angles.
pub open spec fn angdist_spec(a: u16, b: u16) -> u16 {
    let d = u16_specs::wrapping_sub(a, b) & 0x7FFu16;
    if d > 1024 { (2048 - d) as u16 } else { d }
}

/// The rate-limited turn from `cur` toward `tgt`, capped at `cap`.
pub open spec fn turn_step_spec(cur: u16, tgt: u16, cap: i16) -> i16 {
    if cur == tgt {
        0
    } else {
        let d = angdist_spec(cur, tgt) as i16;
        let m = if d < cap { d } else { cap };
        if u16_specs::wrapping_sub(tgt, cur) & 0x7FFu16 <= 1024 { m } else { (-m) as i16 }
    }
}

/// The signed 16-bit wrapped difference `b - a`.
pub open spec fn wd16(a: u16, b: u16) -> int {
    (u16_specs::wrapping_sub(b, a) as i16) as int
}

/// The squared 2-D distance on wrapped 16-bit deltas (the sum wraps at
/// 32 bits).
pub open spec fn dist2_spec(ax: u16, ay: u16, bx: u16, by: u16) -> i32 {
    let dx = wd16(ax, bx);
    let dy = wd16(ay, by);
    i32_specs::wrapping_add((dx * dx) as i32, (dy * dy) as i32)
}

/// The capability bit of the tile type under engine position (x, y).
pub open spec fn roughness_spec(h: Seq<u8>, x: u16, y: u16) -> int {
    let tx = x as int / 256;
    let ty = y as int / 256;
    let h00 = h[tile_spec(tx, ty)] as int;
    let h10 = h[tile_spec((tx + 1) % 256, ty)] as int;
    let h01 = h[tile_spec(tx, (ty + 1) % 256)] as int;
    let h11 = h[tile_spec((tx + 1) % 256, (ty + 1) % 256)] as int;
    let a = h00 + h01 - h10 - h11;
    let b = h00 + h10 - h01 - h11;
    let aa = if a < 0 { -a } else { a };
    let bb = if b < 0 { -b } else { b };
    if aa > bb { aa } else { bb }
}

/// The sprite-stats setter's entity: stats row `t` gives the frame
/// count and the half-size extents.
pub open spec fn sprite_ent(e: Ent, t: u16, s: crate::world::SpriteStats) -> Ent {
    Ent {
        frame88: 0,
        type86: t,
        frames89: frame_count_spec(s.draw_type),
        f78: s.height / 2,
        f80: s.width / 2,
        f82: s.width / 2,
        f84: s.height / 2,
        ..e
    }
}

/// One animation step of entity `e`: finished (no change) once the
/// frame reaches the count.
pub open spec fn anim_spec(e: Ent) -> (Ent, bool) {
    if e.frame88 >= e.frames89 {
        (e, true)
    } else {
        (Ent { frame88: (e.frame88 + 1) as u8, ..e }, false)
    }
}

/// The burrower's hidden-mound disguise on entity `e` (sprite row 201).
pub open spec fn disguise_spec(e: Ent, s: crate::world::SpriteStats) -> Ent {
    Ent { f126: e.f_128, f66: 3, f67: 0xFF, f26: 50, f71: 0, ..sprite_ent(e, 201, s) }
}

/// The burrower's materialize step on entity `e`: count `f26` down;
/// at 17 swap to the transform sprite (row 237), below it step the
/// animation on alternate ticks, and when it ran out settle into the
/// mound (state 55, timer 400).
pub open spec fn emerge_spec(e: Ent, stats: Seq<crate::world::SpriteStats>) -> Ent {
    let v1 = e.f26;
    let e1 = Ent { f26: i16_specs::wrapping_sub(v1, 1), ..e };
    if v1 != 0 {
        if v1 == 17 {
            sprite_ent(e1, 237, stats[237])
        } else if v1 - 1 < 16 && (v1 - 1) % 2 == 0 {
            anim_spec(e1).0
        } else {
            e1
        }
    } else {
        Ent { tick70: 55, f26: 400, f71: 0, ..disguise_spec(e1, stats[201]) }
    }
}

/// Does `f` fall on the given 8-tick corpse beat?
pub open spec fn corpse_spec(e: Ent) -> Ent {
    if e.f63 & 7u8 == 0 { Ent { flags: e.flags | F_DEAD, ..e } } else { e }
}

impl Gen {
    /// Assign sprite-stats row `t` to entity `i`: see [`sprite_ent`].
    pub fn set_sprite(&mut self, i: usize, t: u16)
        requires
            i < old(self).ent@.len(),
            (t as int) < old(self).sprite_stats@.len(),
        ensures
            final(self).ent@ == old(self).ent@.update(i as int, sprite_ent(old(self).ent@[i as int], t, old(self).sprite_stats@[t as int])),
            old(self).frame_ent(final(self)),
    {
        let s = self.sprite_stats[t as usize];
        let mut e = self.ent[i];
        e.frame88 = 0;
        e.type86 = t;
        e.frames89 = frame_count(s.draw_type);
        e.f78 = s.height / 2;
        e.f80 = s.width / 2;
        e.f82 = s.width / 2;
        e.f84 = s.height / 2;
        self.ent.set(i, e);
    }

    /// Explicit extents: horizontal on x and y, vertical on z.
    pub fn extents(&mut self, i: usize, horiz: u16, vert: u16)
        requires
            i < old(self).ent@.len(),
        ensures
            final(self).ent@ == old(self).ent@.update(i as int, Ent { f80: horiz, f82: horiz, f84: vert, ..old(self).ent@[i as int] }),
            old(self).frame_ent(final(self)),
    {
        let mut e = self.ent[i];
        e.f80 = horiz;
        e.f82 = horiz;
        e.f84 = vert;
        self.ent.set(i, e);
    }

    /// Refill entity `i`'s life to its max.
    pub fn refill_life(&mut self, i: usize)
        requires
            i < old(self).ent@.len(),
        ensures
            final(self).ent@ == old(self).ent@.update(i as int, Ent { act_life: old(self).ent@[i as int].max_life as i32, ..old(self).ent@[i as int] }),
            old(self).frame_ent(final(self)),
    {
        let mut e = self.ent[i];
        e.act_life = e.max_life as i32;
        self.ent.set(i, e);
    }

    /// The spawn facing: heading, yaw and pitch homes set to `f`, roll 0.
    pub fn spawn_facing(&mut self, i: usize, f: u16)
        requires
            i < old(self).ent@.len(),
        ensures
            final(self).ent@ == old(self).ent@.update(i as int, Ent { f34: f, f30: f, f_32: f, f36: 0, ..old(self).ent@[i as int] }),
            old(self).frame_ent(final(self)),
    {
        let mut e = self.ent[i];
        e.f34 = f;
        e.f30 = f;
        e.f_32 = f;
        e.f36 = 0;
        self.ent.set(i, e);
    }

    /// The terrain capability bit under engine position (x, y).
    pub fn cap_bit(&self, x: u16, y: u16) -> (r: u32)
        requires
            self.wf(),
        ensures
            r == cap_bit_spec(self.t.tile_type@[tile_spec(x as int / 256, y as int / 256)]),
    {
        let yy = (y >> 8) as usize;
        let xx = (x >> 8) as usize;
        proof {
            crate::world::lemma_hi_byte(x);
            crate::world::lemma_hi_byte(y);
        }
        let t = self.t.tile_type[yy * 256 + xx];
        if t == 0 { 1 }
        else if t == 1 { 2 }
        else if t == 2 { 4 }
        else if t == 3 { 8 }
        else if t == 4 { 0x10 }
        else if t == 5 { 0x20 }
        else if t == 8 { 0x100 }
        else if t == 9 { 0x200 }
        else if t == 10 { 0x100000 }
        else if t == 11 { 0x200000 }
        else if t == 12 { 0x400000 }
        else if t == 13 || t == 14 { 0 }
        else if (15 <= t && t <= 20) || (28 <= t && t <= 34) { 0x400 }
        else if t == 21 || t == 22 || t == 24 { 0x20000 }
        else if t == 23 { 0x40000 }
        else if t == 25 || t == 27 { 0x80000 }
        else if t == 26 { 0x10000 }
        else { 0x800000 }
    }

    /// The local roughness under engine position (x, y): the larger of
    /// the two corner-height cross differences of its tile.
    pub fn roughness(&self, x: u16, y: u16) -> (r: i32)
        requires
            self.wf(),
        ensures
            r == roughness_spec(self.t.height@, x, y),
    {
        proof {
            crate::world::lemma_hi_byte(x);
            crate::world::lemma_hi_byte(y);
        }
        let tx = (x >> 8) as u8;
        let ty = (y >> 8) as u8;
        let h00 = self.t.height[crate::world::tile(tx, ty)] as i32;
        let h10 = self.t.height[crate::world::tile(tx.wrapping_add(1), ty)] as i32;
        let h01 = self.t.height[crate::world::tile(tx, ty.wrapping_add(1))] as i32;
        let h11 = self.t.height[crate::world::tile(tx.wrapping_add(1), ty.wrapping_add(1))] as i32;
        let a = h00 + h01 - h10 - h11;
        let b = h00 + h10 - h01 - h11;
        let aa = if a < 0 { -a } else { a };
        let bb = if b < 0 { -b } else { b };
        if aa > bb { aa } else { bb }
    }

    /// Entity `i`'s corpse beat: every 8th phase tick it despawns.
    pub fn mob_corpse(&mut self, i: usize)
        requires
            i < old(self).ent@.len(),
        ensures
            final(self).ent@ == old(self).ent@.update(i as int, corpse_spec(old(self).ent@[i as int])),
            old(self).frame_ent(final(self)),
    {
        let mut e = self.ent[i];
        if e.f63 & 7 == 0 {
            e.flags = e.flags | F_DEAD;
        }
        self.ent.set(i, e);
    }

    /// One animation-frame step of entity `i`; true when it had already
    /// finished (no wrap).
    pub fn anim_advance(&mut self, i: usize) -> (done: bool)
        requires
            i < old(self).ent@.len(),
        ensures
            final(self).ent@ == old(self).ent@.update(i as int, anim_spec(old(self).ent@[i as int]).0),
            done == anim_spec(old(self).ent@[i as int]).1,
            old(self).frame_ent(final(self)),
    {
        let mut e = self.ent[i];
        if e.frame88 >= e.frames89 {
            proof {
                assert(self.ent@ =~= old(self).ent@.update(i as int, e));
            }
            true
        } else {
            e.frame88 = e.frame88 + 1;
            self.ent.set(i, e);
            false
        }
    }

    /// The death step: every body segment of entity `i`, then `i`
    /// itself, goes to state `base + 5`.
    #[verifier::spinoff_prover]
    #[verifier::rlimit(30)]
    pub fn mob_death(&mut self, i: usize, base: u8)
        requires
            old(self).wf(),
            i < old(self).ent@.len(),
            base < 251,
            seg_ends(old(self).ent@, old(self).ent@[i as int].f54 as int, old(self).ent@.len()),
        ensures
            final(self).wf(),
            old(self).frame_ent(final(self)),
            ({
                let ents = old(self).ent@;
                let segs = seg_chain(ents, ents[i as int].f54 as int, ents.len());
                final(self).ent@ == Seq::new(ents.len(), |k: int| {
                    if k == i || segs.contains(k) { Ent { tick70: (base + 5) as u8, ..ents[k] } } else { ents[k] }
                })
            }),
    {
        let ghost ents = self.ent@;
        let n = self.ent.len();
        let ghost full = seg_chain(ents, ents[i as int].f54 as int, n as nat);
        let mut s = self.ent[i].f54 as usize;
        let mut steps: usize = 0;
        while s != 0 && steps < n
            invariant
                self.wf(),
                old(self).frame_ent(self),
                ents == old(self).ent@,
                n == ents.len(),
                i < n,
                base < 251,
                steps <= n,
                s < n,
                full == seg_chain(ents, ents[i as int].f54 as int, n as nat),
                steps <= full.len(),
                full.skip(steps as int) == seg_chain(ents, s as int, (n - steps) as nat),
                forall|k: int| 0 <= k < n ==> (#[trigger] self.ent@[k]).f54 == ents[k].f54,
                forall|k: int| 0 <= k < n ==> #[trigger] self.ent@[k] == if full.take(steps as int).contains(k) {
                    Ent { tick70: (base + 5) as u8, ..ents[k] }
                } else {
                    ents[k]
                },
            decreases n - steps,
        {
            proof {
                assert(seg_chain(ents, s as int, (n - steps) as nat).len() >= 1);
                assert(full.skip(steps as int)[0] == s);
                assert(full[steps as int] == s);
                assert(full.take(steps + 1) =~= full.take(steps as int).push(s as int));
            }
            let mut e = self.ent[s];
            let next = e.f54 as usize;
            e.tick70 = base + 5;
            let ghost before = self.ent@;
            self.ent.set(s, e);
            proof {
                let nt = full.take(steps + 1);
                let ot = full.take(steps as int);
                assert forall|k: int| 0 <= k < n implies #[trigger] self.ent@[k] == if nt.contains(k) {
                    Ent { tick70: (base + 5) as u8, ..ents[k] }
                } else {
                    ents[k]
                } by {
                    assert(nt.contains(k) <==> (ot.contains(k) || k == s)) by {
                        if k == s {
                            assert(nt[steps as int] == k);
                        }
                        if ot.contains(k) {
                            let m = choose|m: int| 0 <= m < ot.len() && ot[m] == k;
                            assert(nt[m] == k);
                        }
                        if nt.contains(k) && k != s {
                            let m = choose|m: int| 0 <= m < nt.len() && nt[m] == k;
                            assert(m < steps);
                            assert(ot[m] == k);
                        }
                    }
                    assert(before[k] == if ot.contains(k) { Ent { tick70: (base + 5) as u8, ..ents[k] } } else { ents[k] });
                }
                let rest = seg_chain(ents, ents[s as int].f54 as int, (n - steps - 1) as nat);
                assert(seg_chain(ents, s as int, (n - steps) as nat) == seq![s as int] + rest);
                assert(full.skip(steps as int + 1) =~= full.skip(steps as int).skip(1));
                assert(full.skip(steps as int).skip(1) =~= rest);
            }
            s = next;
            steps += 1;
        }
        proof {
            assert(full.skip(steps as int).len() == 0);
            assert(full.take(steps as int) =~= full);
        }
        let mut e = self.ent[i];
        e.tick70 = base + 5;
        self.ent.set(i, e);
        proof {
            let segs = seg_chain(ents, ents[i as int].f54 as int, ents.len());
            assert(self.ent@ =~= Seq::new(ents.len(), |k: int| {
                if k == i || segs.contains(k) { Ent { tick70: (base + 5) as u8, ..ents[k] } } else { ents[k] }
            }));
        }
    }

    /// The burrower's hidden-mound disguise on entity `i`: see
    /// [`disguise_spec`].
    pub fn m9_disguise(&mut self, i: usize)
        requires
            i < old(self).ent@.len(),
            201 < old(self).sprite_stats@.len(),
        ensures
            final(self).ent@ == old(self).ent@.update(i as int, disguise_spec(old(self).ent@[i as int], old(self).sprite_stats@[201])),
            old(self).frame_ent(final(self)),
    {
        let mut e = self.ent[i];
        e.f126 = e.f_128;
        self.ent.set(i, e);
        self.set_sprite(i, 201);
        let mut e = self.ent[i];
        e.f66 = 3;
        e.f67 = 0xFF;
        e.f26 = 50;
        e.f71 = 0;
        self.ent.set(i, e);
    }

    /// The burrower's materialize step on entity `i`: see
    /// [`emerge_spec`].
    pub fn m9_emerge(&mut self, i: usize)
        requires
            i < old(self).ent@.len(),
            237 < old(self).sprite_stats@.len(),
            old(self).ent@[i as int].f26 > i16::MIN,
        ensures
            final(self).ent@ == old(self).ent@.update(i as int, emerge_spec(old(self).ent@[i as int], old(self).sprite_stats@)),
            old(self).frame_ent(final(self)),
    {
        let v1 = self.ent[i].f26;
        let mut e = self.ent[i];
        e.f26 = v1.wrapping_sub(1);
        self.ent.set(i, e);
        if v1 != 0 {
            if v1 == 17 {
                self.set_sprite(i, 237);
            } else if v1 - 1 < 16 && (v1 - 1) % 2 == 0 {
                self.anim_advance(i);
            }
        } else {
            self.m9_disguise(i);
            let mut e = self.ent[i];
            e.tick70 = 55;
            e.f26 = 400;
            e.f71 = 0;
            self.ent.set(i, e);
        }
    }
}

/// The altitude clamp: see [`alt_clamp_spec`].
pub fn alt_clamp(z: &mut i16, ground: i16, row: &BehaviorRow)
    ensures
        *final(z) == alt_clamp_spec(*old(z), ground, *row),
{
    if *z > ground.wrapping_add(row.v_10) {
        *z = z.wrapping_add(row.v_14);
    } else if *z > ground.wrapping_add(row.v_12) {
        *z = z.wrapping_add((25 * row.v_14 as i32 / 100) as i16);
    }
    if *z < ground.wrapping_add(row.v_12) {
        *z = ground.wrapping_add(row.v_12);
    }
}

/// The angular distance of two 11-bit angles.
pub fn angdist(a: u16, b: u16) -> (r: u16)
    ensures
        r == angdist_spec(a, b),
        r <= 1024,
{
    let d = a.wrapping_sub(b) & 0x7FF;
    assert(d <= 0x7FF) by (bit_vector)
        requires
            d == a.wrapping_sub(b) & 0x7FFu16,
    ;
    if d > 1024 { 2048 - d } else { d }
}

/// The rate-limited turn from `cur` toward `tgt`, capped at `cap`.
pub fn turn_step(cur: u16, tgt: u16, cap: i16) -> (r: i16)
    requires
        cap > i16::MIN,
    ensures
        r == turn_step_spec(cur, tgt, cap),
{
    if cur == tgt {
        return 0;
    }
    let d = angdist(cur, tgt) as i16;
    let m = if d < cap { d } else { cap };
    if tgt.wrapping_sub(cur) & 0x7FF <= 1024 {
        m
    } else {
        -m
    }
}

/// The squared 2-D distance on wrapped 16-bit deltas.
pub fn dist2_sq(ax: u16, ay: u16, bx: u16, by: u16) -> (r: i32)
    ensures
        r == dist2_spec(ax, ay, bx, by),
{
    let dx = bx.wrapping_sub(ax) as i16 as i32;
    let dy = by.wrapping_sub(ay) as i16 as i32;
    assert(dx * dx <= 0x4000_0000 && dy * dy <= 0x4000_0000) by (nonlinear_arith)
        requires
            -32768 <= dx <= 32767,
            -32768 <= dy <= 32767,
    ;
    assert(0 <= dx * dx && 0 <= dy * dy) by (nonlinear_arith);
    dx.wrapping_mul(dx).wrapping_add(dy.wrapping_mul(dy))
}


/// The pool with `f58 = v` on every slot of the body-segment chain from
/// `start` (followed for at most pool-size links).
pub open spec fn chain_f58(ents: Seq<Ent>, start: int, v: i16) -> Seq<Ent> {
    let segs = seg_chain(ents, start, ents.len());
    Seq::new(ents.len(), |k: int| if segs.contains(k) { Ent { f58: v, ..ents[k] } } else { ents[k] })
}

/// Is the player within 24 tiles of `e` (2-D squared distance)?
pub open spec fn awake_near(e: Ent, ctx: MobCtx) -> bool {
    dist2_spec(e.x, e.y, ctx.px, ctx.py) < 0x240_0000
}

/// Slot `i`'s step of the awake pre-pass: an awake creature counts
/// `f58` down (mirrored into its segments), a dead one parks at 250, a
/// waiting one counts `f59` down, and an asleep one within reach of the
/// player re-arms to 16 (segments 18). Non-creatures and state 120 are
/// skipped.
pub open spec fn awake_step(ents: Seq<Ent>, i: int, ctx: MobCtx) -> Seq<Ent> {
    let e = ents[i];
    if e.class64 != 5 || e.tick70 == 120 {
        ents
    } else if e.act_life < 0 {
        ents.update(i, Ent { f58: 250, f59: 0, ..e })
    } else if e.f58 > 0 {
        let v = (e.f58 - 1) as i16;
        chain_f58(ents.update(i, Ent { f58: v, ..e }), e.f54 as int, v)
    } else if e.f59 > 0 {
        ents.update(i, Ent { f59: (e.f59 - 1) as u8, ..e })
    } else if awake_near(e, ctx) {
        chain_f58(ents.update(i, Ent { f58: 16, f59: 0, ..e }), e.f54 as int, 18)
    } else {
        ents
    }
}

/// The awake pre-pass over slots `1..n`, in slot order.
pub open spec fn awake_upto(ents: Seq<Ent>, ctx: MobCtx, n: int) -> Seq<Ent>
    decreases n,
{
    if n <= 1 {
        ents
    } else {
        awake_step(awake_upto(ents, ctx, n - 1), n - 1, ctx)
    }
}

impl Gen {
    /// Write `v` into `f58` of every body segment chained from `start`:
    /// see [`chain_f58`].
    #[verifier::spinoff_prover]
    #[verifier::rlimit(30)]
    pub(crate) fn seg_set_f58(&mut self, start: u16, v: i16)
        requires
            old(self).wf(),
            (start as int) < old(self).ent@.len(),
        ensures
            final(self).wf(),
            old(self).frame_ent(final(self)),
            final(self).ent@ == chain_f58(old(self).ent@, start as int, v),
    {
        let ghost ents = self.ent@;
        let n = self.ent.len();
        let ghost full = seg_chain(ents, start as int, n as nat);
        let mut s = start as usize;
        let mut steps: usize = 0;
        while s != 0 && steps < n
            invariant
                self.wf(),
                old(self).frame_ent(self),
                ents == old(self).ent@,
                n == ents.len(),
                steps <= n,
                s < n,
                full == seg_chain(ents, start as int, n as nat),
                steps <= full.len(),
                full.skip(steps as int) == seg_chain(ents, s as int, (n - steps) as nat),
                forall|k: int| 0 <= k < n ==> #[trigger] self.ent@[k] == if full.take(steps as int).contains(k) {
                    Ent { f58: v, ..ents[k] }
                } else {
                    ents[k]
                },
            decreases n - steps,
        {
            proof {
                assert(seg_chain(ents, s as int, (n - steps) as nat).len() >= 1);
                assert(full.skip(steps as int)[0] == s);
                assert(full[steps as int] == s);
                assert(full.take(steps + 1) =~= full.take(steps as int).push(s as int));
            }
            let mut e = self.ent[s];
            let next = e.f54 as usize;
            e.f58 = v;
            let ghost before = self.ent@;
            self.ent.set(s, e);
            proof {
                let nt = full.take(steps + 1);
                let ot = full.take(steps as int);
                assert forall|k: int| 0 <= k < n implies #[trigger] self.ent@[k] == if nt.contains(k) {
                    Ent { f58: v, ..ents[k] }
                } else {
                    ents[k]
                } by {
                    assert(nt.contains(k) <==> (ot.contains(k) || k == s)) by {
                        if k == s {
                            assert(nt[steps as int] == k);
                        }
                        if ot.contains(k) {
                            let m = choose|m: int| 0 <= m < ot.len() && ot[m] == k;
                            assert(nt[m] == k);
                        }
                        if nt.contains(k) && k != s {
                            let m = choose|m: int| 0 <= m < nt.len() && nt[m] == k;
                            assert(m < steps);
                            assert(ot[m] == k);
                        }
                    }
                    assert(before[k] == if ot.contains(k) { Ent { f58: v, ..ents[k] } } else { ents[k] });
                }
                let rest = seg_chain(ents, ents[s as int].f54 as int, (n - steps - 1) as nat);
                assert(seg_chain(ents, s as int, (n - steps) as nat) == seq![s as int] + rest);
                assert(full.skip(steps as int + 1) =~= full.skip(steps as int).skip(1));
                assert(full.skip(steps as int).skip(1) =~= rest);
            }
            s = next;
            steps += 1;
        }
        proof {
            assert(full.skip(steps as int).len() == 0);
            assert(full.take(steps as int) =~= full);
            assert(self.ent@ =~= chain_f58(ents, start as int, v));
        }
    }

    /// The awake pre-pass run before dispatch: [`awake_step`] on every
    /// slot from 1 up, in order.
    #[verifier::spinoff_prover]
    #[verifier::rlimit(30)]
    pub fn mob_awake_pass(&mut self, ctx: &MobCtx)
        requires
            old(self).wf(),
        ensures
            final(self).wf(),
            old(self).frame_ent(final(self)),
            final(self).ent@ == awake_upto(old(self).ent@, *ctx, old(self).ent@.len() as int),
    {
        let ghost ents = self.ent@;
        let n = self.ent.len();
        let mut i: usize = 1;
        while i < n
            invariant
                self.wf(),
                old(self).frame_ent(self),
                ents == old(self).ent@,
                n == ents.len(),
                1 <= i <= n,
                self.ent@ == awake_upto(ents, *ctx, i as int),
            decreases n - i,
        {
            let ghost cur = self.ent@;
            let e = self.ent[i];
            if e.class64 != 5 || e.tick70 == 120 {
            } else if e.act_life < 0 {
                let mut e2 = e;
                e2.f58 = 250;
                e2.f59 = 0;
                self.ent.set(i, e2);
            } else if e.f58 > 0 {
                let v = e.f58 - 1;
                let mut e2 = e;
                e2.f58 = v;
                self.ent.set(i, e2);
                self.seg_set_f58(e.f54, v);
            } else if e.f59 > 0 {
                let mut e2 = e;
                e2.f59 = e.f59 - 1;
                self.ent.set(i, e2);
            } else if dist2_sq(e.x, e.y, ctx.px, ctx.py) < 0x240_0000 {
                let mut e2 = e;
                e2.f58 = 16;
                e2.f59 = 0;
                self.ent.set(i, e2);
                self.seg_set_f58(e.f54, 18);
            }
            proof {
                assert(self.ent@ == awake_step(cur, i as int, *ctx));
            }
            i += 1;
        }
    }
}


/// One simple creature model's spawn constants: action state, life,
/// speeds (actual, max, acceleration), behavior row and `f44`.
#[derive(Debug, Clone, Copy, PartialEq, Eq)]
pub struct CreatureConsts {
    pub state: u8,
    pub life: u32,
    pub act: i16,
    pub max: i16,
    pub accel: i16,
    pub row: u8,
    pub f44: u16,
}

/// The spawn constants of the simple creature models (1, 2, 4, 5, 7..=16);
/// `None` for any other model.
pub open spec fn creature_consts(model: u16) -> Option<CreatureConsts> {
    let k = |state: u8, life: u32, act: i16, max: i16, accel: i16, row: u8, f44: u16|
        Some(CreatureConsts { state, life, act, max, accel, row, f44 });
    if model == 1 { k(7, 2000, 50, 100, 16, 13, 100) }
    else if model == 2 { k(13, 3000, 35, 70, 30, 14, 350) }
    else if model == 4 { k(25, 1000, 30, 30, 0, 0, 500) }
    else if model == 5 { k(31, 5000, 30, 30, 3, 17, 500) }
    else if model == 7 { k(43, 0, 20, 20, 3, 19, 500) }
    else if model == 8 { k(49, 10000, 40, 40, 20, 20, 1000) }
    else if model == 9 { k(54, 1000, 20, 20, 0, 21, 500) }
    else if model == 10 { k(61, 2000, 60, 60, 20, 22, 500) }
    else if model == 11 { k(66, 20000, 60, 60, 20, 23, 500) }
    else if model == 12 { k(73, 1000, 40, 40, 20, 10, 500) }
    else if model == 13 { k(79, 1000, 40, 40, 20, 10, 500) }
    else if model == 14 { k(85, 1000, 40, 40, 20, 10, 500) }
    else if model == 15 { k(91, 1000, 30, 30, 0, 24, 500) }
    else if model == 16 { k(97, 100000, 60, 60, 20, 25, 500) }
    else { None }
}

/// The spawn constants of `model`, if it is a simple creature.
pub fn creature_consts_of(model: u16) -> (r: Option<CreatureConsts>)
    ensures
        r == creature_consts(model),
{
    let k = |state: u8, life: u32, act: i16, max: i16, accel: i16, row: u8, f44: u16| -> (r: Option<CreatureConsts>)
        ensures
            r == Some(CreatureConsts { state, life, act, max, accel, row, f44 }),
    { Some(CreatureConsts { state, life, act, max, accel, row, f44 }) };
    if model == 1 { k(7, 2000, 50, 100, 16, 13, 100) }
    else if model == 2 { k(13, 3000, 35, 70, 30, 14, 350) }
    else if model == 4 { k(25, 1000, 30, 30, 0, 0, 500) }
    else if model == 5 { k(31, 5000, 30, 30, 3, 17, 500) }
    else if model == 7 { k(43, 0, 20, 20, 3, 19, 500) }
    else if model == 8 { k(49, 10000, 40, 40, 20, 20, 1000) }
    else if model == 9 { k(54, 1000, 20, 20, 0, 21, 500) }
    else if model == 10 { k(61, 2000, 60, 60, 20, 22, 500) }
    else if model == 11 { k(66, 20000, 60, 60, 20, 23, 500) }
    else if model == 12 { k(73, 1000, 40, 40, 20, 10, 500) }
    else if model == 13 { k(79, 1000, 40, 40, 20, 10, 500) }
    else if model == 14 { k(85, 1000, 40, 40, 20, 10, 500) }
    else if model == 15 { k(91, 1000, 30, 30, 0, 24, 500) }
    else if model == 16 { k(97, 100000, 60, 60, 20, 25, 500) }
    else { None }
}

/// The spawn life: model 7 alternates 4000 / 2000 on its spawn ordinal's
/// parity, the others take their constant.
pub open spec fn creature_life(model: u16, c: CreatureConsts, ordinal: u8) -> u32 {
    if model == 7 { if ordinal & 1 != 0 { 4000 } else { 2000 } } else { c.life }
}

/// The spawn facing from the first draw `d1`: none for models 1 and 15,
/// `d1 % 0x832 - 1` for model 9, `(d1 & 0x7FF) - 1` otherwise (16-bit).
pub open spec fn creature_facing(model: u16, d1: u32) -> u16 {
    if model == 1 || model == 15 {
        0
    } else if model == 9 {
        u32_specs::wrapping_sub(d1 % 0x832, 1) as u16
    } else {
        u32_specs::wrapping_sub(d1 & 0x7FFu32, 1) as u16
    }
}

/// The scan phase `f58` from the behavior row's word `v26`.
pub open spec fn creature_f58(model: u16, v26: i16, ordinal: u8) -> int {
    if model == 1 {
        (v26 & 0xFFi16) + 1
    } else if model == 2 || model == 4 || model == 9 || model == 15 {
        v26 - (ordinal as int) % (v26 as int) + 4
    } else {
        64
    }
}

/// The sprite row of the new creature (model 13 picks 217 or 218 by the
/// second draw `d2 % 7 < 4`; model 7 by its ordinal's parity).
pub open spec fn creature_sprite(model: u16, ordinal: u8, d2: u32) -> u16 {
    if model == 1 { 86 }
    else if model == 2 { 3 }
    else if model == 4 || model == 15 { 0 }
    else if model == 5 { 185 }
    else if model == 7 { if ordinal & 1 != 0 { 85 } else { 199 } }
    else if model == 8 { 47 }
    else if model == 9 { 220 }
    else if model == 10 { 208 }
    else if model == 11 { 200 }
    else if model == 12 { 221 }
    else if model == 13 { if d2 % 7 < 4 { 217 } else { 218 } }
    else if model == 14 { 219 }
    else { 207 }
}

/// The new simple creature of `model` in slot `i` (from the slot's
/// content `e0`), with spawn ordinal `ordinal`, draws `d1`, `d2`, the
/// behavior row word `v26` and the sprite stats `s` of its row: class 5,
/// the model's state, speeds, row and life (full), its mana (half the
/// life; model 5 500 of 12000, models 12..=15 none, model 11 a
/// capacity of twice its mana), the drawn facing, the state timer
/// (`i % 100`; model 9 `i % 10 + 29`, models 11 and 16 0, 12..=14 2), the
/// ordinal in `f63`, the scan phase, the sprite, and half-tile extents
/// for all but model 1.
pub open spec fn simple_creature_spec(e0: Ent, model: u16, c: CreatureConsts, i: int, ordinal: u8, d1: u32, d2: u32, v26: i16, s: crate::world::SpriteStats) -> Ent {
    let life = creature_life(model, c, ordinal);
    let f140: i32 = if model == 5 { 500 } else if 12 <= model <= 15 { 0 } else { (life / 2) as i32 };
    let f136: i32 = if model == 5 { 12000 } else if model == 11 { (2 * f140) as i32 } else { e0.f136 };
    let f = creature_facing(model, d1);
    let f26: i16 = if model == 9 { (i % 10 + 29) as i16 } else if model == 11 || model == 16 { 0 } else if 12 <= model <= 14 { 2 } else { (i % 100) as i16 };
    let e1 = Ent {
        class64: 5,
        model65: model as u8,
        tick70: c.state,
        max_life: life,
        act_life: life as i32,
        f126: c.act,
        f_128: c.max,
        f130: c.accel,
        f44: c.f44,
        row156: c.row,
        f66: 3,
        f140,
        f136,
        f34: f,
        f30: f,
        f_32: f,
        f36: 0,
        f28: 1,
        f26,
        f63: ordinal,
        f58: creature_f58(model, v26, ordinal) as i16,
        flags: if model == 15 { e0.flags | 0x20000 } else { e0.flags },
        ..e0
    };
    let e2 = sprite_ent(e1, creature_sprite(model, ordinal, d2), s);
    let e3 = if model == 7 { Ent { f71: if ordinal & 1 != 0 { 1u8 } else { 2u8 }, ..e2 } } else { e2 };
    if model != 1 { Ent { f80: 128, f82: 128, f84: 128, ..e3 } } else { e3 }
}

/// The simple creatures' spawn table: the models 1, 2, 4, 5 and 7..=16
/// spawn (every other model nothing), each as a class-5 creature of its
/// model with the action state, life (full), actual, max and
/// acceleration speeds, behavior row and `f44` of its row below (model 7's
/// life alternating 4000 / 2000 on its ordinal), and mana of half its
/// life (model 5: 500 of 12000; models 12..=15: none); its sprite row,
/// spawn ordinal, state timer and a square half-tile box (model 1 keeps
/// its sprite's) follow the model too, and its heading, yaw and pitch
/// are one drawn value (0 for models 1 and 15).
pub proof fn simple_creature_table(e0: Ent, model: u16, i: int, ord: u8, d1: u32, d2: u32, v26: i16, s: crate::world::SpriteStats)
    ensures
        creature_consts(model) is Some <==> (model == 1 || model == 2 || model == 4 || model == 5 || 7 <= model <= 16),
        creature_consts(model) is Some ==> ({
            let r = simple_creature_spec(e0, model, creature_consts(model)->0, i, ord, d1, d2, v26, s);
            &&& r.class64 == 5
            &&& r.model65 == model as u8
            &&& r.act_life == r.max_life as i32
            &&& model == 1 ==> (r.tick70, r.max_life, r.f126, r.f_128, r.f130, r.row156, r.f44) == (7u8, 2000u32, 50i16, 100i16, 16i16, 13u8, 100u16)
            &&& model == 2 ==> (r.tick70, r.max_life, r.f126, r.f_128, r.f130, r.row156, r.f44) == (13u8, 3000u32, 35i16, 70i16, 30i16, 14u8, 350u16)
            &&& model == 4 ==> (r.tick70, r.max_life, r.f126, r.f_128, r.f130, r.row156, r.f44) == (25u8, 1000u32, 30i16, 30i16, 0i16, 0u8, 500u16)
            &&& model == 5 ==> (r.tick70, r.max_life, r.f126, r.f_128, r.f130, r.row156, r.f44) == (31u8, 5000u32, 30i16, 30i16, 3i16, 17u8, 500u16)
            &&& model == 8 ==> (r.tick70, r.max_life, r.f126, r.f_128, r.f130, r.row156, r.f44) == (49u8, 10000u32, 40i16, 40i16, 20i16, 20u8, 1000u16)
            &&& model == 9 ==> (r.tick70, r.max_life, r.f126, r.f_128, r.f130, r.row156, r.f44) == (54u8, 1000u32, 20i16, 20i16, 0i16, 21u8, 500u16)
            &&& model == 10 ==> (r.tick70, r.max_life, r.f126, r.f_128, r.f130, r.row156, r.f44) == (61u8, 2000u32, 60i16, 60i16, 20i16, 22u8, 500u16)
            &&& model == 11 ==> (r.tick70, r.max_life, r.f126, r.f_128, r.f130, r.row156, r.f44) == (66u8, 20000u32, 60i16, 60i16, 20i16, 23u8, 500u16)
            &&& model == 12 ==> (r.tick70, r.max_life, r.f126, r.f_128, r.f130, r.row156, r.f44) == (73u8, 1000u32, 40i16, 40i16, 20i16, 10u8, 500u16)
            &&& model == 13 ==> (r.tick70, r.max_life, r.f126, r.f_128, r.f130, r.row156, r.f44) == (79u8, 1000u32, 40i16, 40i16, 20i16, 10u8, 500u16)
            &&& model == 14 ==> (r.tick70, r.max_life, r.f126, r.f_128, r.f130, r.row156, r.f44) == (85u8, 1000u32, 40i16, 40i16, 20i16, 10u8, 500u16)
            &&& model == 15 ==> (r.tick70, r.max_life, r.f126, r.f_128, r.f130, r.row156, r.f44) == (91u8, 1000u32, 30i16, 30i16, 0i16, 24u8, 500u16)
            &&& model == 16 ==> (r.tick70, r.max_life, r.f126, r.f_128, r.f130, r.row156, r.f44) == (97u8, 100000u32, 60i16, 60i16, 20i16, 25u8, 500u16)
            &&& model == 7 ==> (r.tick70, r.max_life, r.f126, r.f_128, r.f130, r.row156, r.f44) == (43u8, if ord & 1 != 0 { 4000u32 } else { 2000u32 }, 20i16, 20i16, 3i16, 19u8, 500u16)
            &&& r.f140 == if model == 5 { 500i32 } else if 12 <= model <= 15 { 0i32 } else { (r.max_life / 2) as i32 }
            &&& model == 5 ==> r.f136 == 12000
            &&& model == 1 ==> r.type86 == 86
            &&& model == 2 ==> r.type86 == 3
            &&& model == 4 ==> r.type86 == 0
            &&& model == 5 ==> r.type86 == 185
            &&& model == 8 ==> r.type86 == 47
            &&& model == 9 ==> r.type86 == 220
            &&& model == 10 ==> r.type86 == 208
            &&& model == 11 ==> r.type86 == 200
            &&& model == 12 ==> r.type86 == 221
            &&& model == 14 ==> r.type86 == 219
            &&& model == 15 ==> r.type86 == 0
            &&& model == 16 ==> r.type86 == 207
            &&& model == 7 ==> r.type86 == (if ord & 1 != 0 { 85u16 } else { 199u16 })
            &&& model == 13 ==> r.type86 == (if d2 % 7 < 4 { 217u16 } else { 218u16 })
            &&& r.f63 == ord
            &&& r.f26 == if model == 9 { (i % 10 + 29) as i16 } else if model == 11 || model == 16 { 0i16 } else if 12 <= model <= 14 { 2i16 } else { (i % 100) as i16 }
            &&& r.f30 == r.f34 && r.f30 == r.f_32 && r.f36 == 0
            &&& (model == 1 || model == 15) ==> r.f30 == 0
            &&& model != 1 ==> r.f80 == 128 && r.f82 == 128 && r.f84 == 128
        }),
{
}

impl Gen {
    /// Spawn a simple creature of `model` (see [`simple_creature_spec`])
    /// into `slot`, the pool slot the engine's allocator handed out
    /// (`None` when the pool is full), and count the spawn in the
    /// model's ordinal. `draws` are the first two draws from the new
    /// entity's random stream (the second read only by model 13) and
    /// `v26` the model's behavior row word 26. Models outside the table
    /// spawn nothing. Placing the creature in its map cell is the
    /// engine's, done on the slot returned.
    pub fn spawn_simple_creature(&mut self, model: u16, slot: Option<usize>, draws: (u32, u32), v26: i16) -> (r: Option<usize>)
        requires
            old(self).wf(),
            creature_consts(model) is Some && slot is Some ==> {
                let i = slot->0;
                &&& i < old(self).ent@.len()
                &&& (model as int) < old(self).spawn_count@.len()
                &&& (creature_sprite(model, old(self).spawn_count@[model as int], draws.1) as int) < old(self).sprite_stats@.len()
                &&& (model == 2 || model == 4 || model == 9 || model == 15) ==> {
                    let o = old(self).spawn_count@[model as int] as int;
                    &&& v26 != 0
                    &&& i16::MIN <= v26 - o % (v26 as int)
                    &&& v26 - o % (v26 as int) + 4 <= i16::MAX
                }
            },
        ensures
            final(self).wf(),
            r == if creature_consts(model) is Some { slot } else { None },
            final(self).t@ == old(self).t@,
            final(self).map_entity == old(self).map_entity,
            final(self).sounds == old(self).sounds,
            old(self).scalars_eq(final(self)),
            final(self).rival_ents == old(self).rival_ents,
            final(self).mc2_life_scale == old(self).mc2_life_scale,
            final(self).build_tab == old(self).build_tab,
            final(self).sprite_stats == old(self).sprite_stats,
            final(self).sprite_params == old(self).sprite_params,
            final(self).mc2_sprite_ext == old(self).mc2_sprite_ext,
            final(self).mc2_night_shade == old(self).mc2_night_shade,
            r is None ==> final(self).ent == old(self).ent && final(self).spawn_count == old(self).spawn_count,
            r matches Some(i) ==> {
                let o = old(self).spawn_count@[model as int];
                &&& final(self).ent@ == old(self).ent@.update(i as int, simple_creature_spec(
                    old(self).ent@[i as int],
                    model,
                    creature_consts(model)->0,
                    i as int,
                    o,
                    draws.0,
                    draws.1,
                    v26,
                    old(self).sprite_stats@[creature_sprite(model, o, draws.1) as int],
                ))
                &&& final(self).spawn_count@ == old(self).spawn_count@.update(model as int, u8_specs::wrapping_add(o, 1))
            },
    {
        let c = match creature_consts_of(model) {
            Some(c) => c,
            None => return None,
        };
        let i = match slot {
            Some(i) => i,
            None => return None,
        };
        let ordinal = self.spawn_count[model as usize];
        let life: u32 = if model == 7 {
            if ordinal & 1 != 0 { 4000 } else { 2000 }
        } else {
            c.life
        };
        let mut e = self.ent[i];
        e.class64 = 5;
        e.model65 = model as u8;
        e.tick70 = c.state;
        e.max_life = life;
        e.f126 = c.act;
        e.f_128 = c.max;
        e.f130 = c.accel;
        e.f44 = c.f44;
        e.row156 = c.row;
        e.f66 = 3;
        if model == 5 {
            e.f140 = 500;
            e.f136 = 12000;
        } else if 12 <= model && model <= 15 {
            e.f140 = 0;
        } else {
            e.f140 = (life / 2) as i32;
        }
        if model == 11 {
            e.f136 = 2 * e.f140;
        }
        let facing: u16 = if model == 1 || model == 15 {
            0
        } else if model == 9 {
            (draws.0 % 0x832).wrapping_sub(1) as u16
        } else {
            (draws.0 & 0x7FF).wrapping_sub(1) as u16
        };
        self.ent.set(i, e);
        self.spawn_facing(i, facing);
        let mut e = self.ent[i];
        e.f28 = 1;
        e.f26 = if model == 9 {
            (i % 10) as i16 + 29
        } else if model == 11 || model == 16 {
            0
        } else if 12 <= model && model <= 14 {
            2
        } else {
            (i % 100) as i16
        };
        e.f63 = ordinal;
        self.spawn_count.set(model as usize, ordinal.wrapping_add(1));
        assert(0 <= v26 & 0xFF <= 255) by (bit_vector);
        e.f58 = if model == 1 {
            (v26 & 0xFF) + 1
        } else if model == 2 || model == 4 || model == 9 || model == 15 {
            v26 - (ordinal as i16 % v26) + 4
        } else {
            64
        };
        if model == 15 {
            e.flags = e.flags | 0x20000;
        }
        self.ent.set(i, e);
        self.refill_life(i);
        let t: u16 = if model == 1 {
            86
        } else if model == 2 {
            3
        } else if model == 4 || model == 15 {
            0
        } else if model == 5 {
            185
        } else if model == 7 {
            if ordinal & 1 != 0 { 85 } else { 199 }
        } else if model == 8 {
            47
        } else if model == 9 {
            220
        } else if model == 10 {
            208
        } else if model == 11 {
            200
        } else if model == 12 {
            221
        } else if model == 13 {
            if draws.1 % 7 < 4 { 217 } else { 218 }
        } else if model == 14 {
            219
        } else {
            207
        };
        self.set_sprite(i, t);
        if model == 7 {
            let mut e = self.ent[i];
            e.f71 = if ordinal & 1 != 0 { 1 } else { 2 };
            self.ent.set(i, e);
        }
        if model != 1 {
            self.extents(i, 128, 128);
        }
        Some(i)
    }
}


/// The sprite row of a scenery model (1..=5; the tree picks 84 or 83 by
/// its fourth draw's low bit).
pub open spec fn scenery_sprite(model: u16, d4: u32) -> u16 {
    if model == 0 {
        if d4 & 1u32 != 0 { 84 } else { 83 }
    } else if model == 1 {
        79
    } else if model == 2 {
        39
    } else if model == 3 {
        270
    } else {
        48
    }
}

/// The jitter of a tree's placement from a draw: `(d & 0x3F) - 32`.
pub open spec fn tree_jitter(d: u32) -> i16 {
    ((d & 0x3Fu32) as int - 32) as i16
}

/// A new scenery entity of `model` (0..=5) in slot `i` with content `e`:
/// class 2, timer `i % 11`, full life; the tree (model 0) is
/// vulnerable (`f28` 1) at action 0; the rocks (1..=3) lose bit 3 and
/// take actions 3, 6, 9 (model 2 with 1024 extents); the marker stones
/// (4, 5) actions 12, 15; each with its sprite row and stats `s`.
pub open spec fn scenery_spec(e: Ent, model: u16, i: int, d4: u32, s: crate::world::SpriteStats) -> Ent {
    let e1 = Ent { class64: 2, model65: model as u8, f26: (i % 11) as i16, ..e };
    let e2 = if model == 0 {
        Ent { tick70: 0, f28: 1, ..e1 }
    } else if model <= 3 {
        Ent { flags: e1.flags & 0xFFFF_FFF7u32, tick70: if model == 1 { 3u8 } else if model == 2 { 6u8 } else { 9u8 }, ..e1 }
    } else {
        Ent { tick70: if model == 4 { 12u8 } else { 15u8 }, ..e1 }
    };
    let e3 = sprite_ent(Ent { act_life: e2.max_life as i32, ..e2 }, scenery_sprite(model, d4), s);
    if model == 2 { Ent { f80: 1024, f82: 1024, f84: 1024, ..e3 } } else { e3 }
}

/// Where a new scenery entity is placed: the tree jitters x and y by its
/// second and third draws, the others stay at (x, y, z).
pub open spec fn scenery_pos(model: u16, x: u16, y: u16, z: i16, d2: u32, d3: u32) -> (u16, u16, i16) {
    if model == 0 {
        (u16_specs::wrapping_add(x, tree_jitter(d2) as u16), u16_specs::wrapping_add(y, tree_jitter(d3) as u16), z)
    } else {
        (x, y, z)
    }
}

/// A tree's placement jitter from a draw: see [`tree_jitter`].
pub(crate) fn jitter_of(d: u32) -> (r: i16)
    ensures
        r == tree_jitter(d),
{
    assert(d & 0x3F <= 0x3F) by (bit_vector);
    ((d & 0x3F) as i32 - 32) as i16
}

impl Gen {
    /// Spawn a scenery entity of `model` (see [`scenery_spec`]) into
    /// `slot`, the pool slot the engine's allocator handed out (`None`
    /// when the pool is full); models above 5 spawn nothing. `draws` are
    /// the tree's four draws from the new entity's random stream (a life
    /// roll that the full-life refill overwrites, the x and y jitters,
    /// the variant); other models read none. Returns the slot and the
    /// position (see [`scenery_pos`]) at which the engine places it in
    /// its map cell.
    pub fn spawn_scenery(&mut self, model: u16, x: u16, y: u16, z: i16, slot: Option<usize>, draws: (u32, u32, u32, u32)) -> (r: Option<(usize, (u16, u16, i16))>)
        requires
            model <= 5 && slot is Some ==> {
                &&& slot->0 < old(self).ent@.len()
                &&& (scenery_sprite(model, draws.3) as int) < old(self).sprite_stats@.len()
            },
        ensures
            r == if model <= 5 && slot is Some {
                Some((slot->0, scenery_pos(model, x, y, z, draws.1, draws.2)))
            } else {
                None::<(usize, (u16, u16, i16))>
            },
            old(self).frame_ent(final(self)),
            r is None ==> final(self).ent == old(self).ent,
            r matches Some(p) ==> final(self).ent@ == old(self).ent@.update(p.0 as int, scenery_spec(
                old(self).ent@[p.0 as int],
                model,
                p.0 as int,
                draws.3,
                old(self).sprite_stats@[scenery_sprite(model, draws.3) as int],
            )),
    {
        if model > 5 {
            return None;
        }
        let i = match slot {
            Some(i) => i,
            None => return None,
        };
        let mut e = self.ent[i];
        e.class64 = 2;
        e.model65 = model as u8;
        e.f26 = (i % 11) as i16;
        let mut pos = (x, y, z);
        let t: u16;
        if model == 0 {
            e.tick70 = 0;
            e.f28 = 1;
            let jx = jitter_of(draws.1);
            let jy = jitter_of(draws.2);
            pos = (x.wrapping_add(jx as u16), y.wrapping_add(jy as u16), z);
            t = if draws.3 & 1 != 0 { 84 } else { 83 };
        } else if model <= 3 {
            e.flags = e.flags & 0xFFFF_FFF7;
            e.tick70 = if model == 1 { 3 } else if model == 2 { 6 } else { 9 };
            t = if model == 1 { 79 } else if model == 2 { 39 } else { 270 };
        } else {
            e.tick70 = if model == 4 { 12 } else { 15 };
            t = 48;
        }
        self.ent.set(i, e);
        self.refill_life(i);
        self.set_sprite(i, t);
        if model == 2 {
            self.extents(i, 1024, 1024);
        }
        Some((i, pos))
    }
}

} // verus!
