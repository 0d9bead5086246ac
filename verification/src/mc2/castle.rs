//! The MC2 castle column's bookkeeping: the capacity and life ladder,
//! the fleet quota, the damage intake, the footprint extents, the
//! pre-clear and space check a level-up runs, the owner's building
//! bank, the sphere absorption and the stage-piece release.

use vstd::prelude::*;
use vstd::wrapping::u8_specs;
use crate::world::{BuildDef, Ent, Gen, PLAYER_TARGET, F_DEAD, center_byte, center_spec, tile, tile_spec};
use crate::mc2::flood::{axis_dist, axis_wd, overlap_xy_spec};
use crate::mc2::mobs::{mc2_sprite_ent, params_ok, params_spec};

verus! {

/// The "upgrade armed" latch the standing tick turns into a level-up.
pub const F_UPGRADE_ARMED: u32 = 0x40;

/// Castle mana capacity by level (level 7 is a sentinel).
pub open spec fn cap_spec(lvl: int) -> i32 {
    if lvl <= 0 { 5000 }
    else if lvl == 1 { 8500 }
    else if lvl == 2 { 18000 }
    else if lvl == 3 { 38800 }
    else if lvl == 4 { 78600 }
    else if lvl == 5 { 158200 }
    else if lvl == 6 { 317400 }
    else { 300_000_000 }
}

/// Castle max life by level before the owner's life scale; level 0
/// has none.
pub open spec fn hp_spec(lvl: int) -> u32 {
    if lvl <= 0 { 0 }
    else if lvl == 1 { 20000 }
    else if lvl <= 3 { 40000 }
    else if lvl <= 5 { 60000 }
    else { 80000 }
}

/// Castle mana capacity by level.
pub fn mc2_castle_cap(lvl: usize) -> (r: i32)
    requires
        lvl < 8,
    ensures
        r == cap_spec(lvl as int),
{
    match lvl {
        0 => 5000,
        1 => 8500,
        2 => 18000,
        3 => 38800,
        4 => 78600,
        5 => 158200,
        6 => 317400,
        _ => 300_000_000,
    }
}

/// Castle max life by level, before scaling.
pub fn mc2_castle_hp(lvl: usize) -> (r: u32)
    requires
        lvl < 8,
    ensures
        r == hp_spec(lvl as int),
{
    match lvl {
        0 => 0,
        1 => 20000,
        2 | 3 => 40000,
        4 | 5 => 60000,
        _ => 80000,
    }
}

/// The (balloons, guards) a castle of level `lvl` keeps.
pub open spec fn quota_spec(lvl: i16) -> (usize, usize) {
    if lvl == 1 || lvl == 2 {
        (1, 0)
    } else if lvl == 3 {
        (1, 4)
    } else if lvl == 4 {
        (2, 6)
    } else if lvl == 5 {
        (2, 14)
    } else if lvl == 6 {
        (3, 18)
    } else if lvl == 7 {
        (3, 34)
    } else {
        (0, 0)
    }
}

/// The (balloons, guards) quota by castle level.
pub fn mc2_castle_quota(lvl: i16) -> (r: (usize, usize))
    ensures
        r == quota_spec(lvl),
{
    match lvl {
        1 | 2 => (1, 0),
        3 => (1, 4),
        4 => (2, 6),
        5 => (2, 14),
        6 => (3, 18),
        7 => (3, 34),
        _ => (0, 0),
    }
}

/// The half-extent of a footprint dimension: `((d << 8) + 1280) >> 1`
/// in 16-bit arithmetic.
pub open spec fn half_extent(d: u8) -> u16 {
    (((d as int * 256 + 1280) % 65536) / 2) as u16
}

fn half_ext(d: u8) -> (r: u16)
    ensures
        r == half_extent(d),
{
    let s = ((d as u16) << 8).wrapping_add(1280);
    assert(((d as u16) << 8u16) == d as u16 * 256) by (bit_vector);
    assert(s >> 1u16 == s / 2) by (bit_vector);
    s >> 1
}

/// `v` clamped to `lo..=hi`.
pub open spec fn clamp(v: int, lo: int, hi: int) -> int {
    if v < lo { lo } else if v > hi { hi } else { v }
}

/// What the damage intake leaves on the castle `e2` and returns `r` (0
/// idle, 1 hit, 2 lethal): an
/// already-dead castle is lethal and untouched; otherwise the mail-0
/// amount comes straight off the life (a lethal hit remembers its
/// sender and frees the channel's sender), and a self-sent mail-5
/// upgrade request below level 7 arms the upgrade latch.
pub open spec fn intake_post(e: Ent, e2: Ent, r: u8) -> bool {
    let hit = e.mail[0].1 != 0;
    let life = if hit { e.act_life - (e.mail[0].0 as i32) } else { e.act_life as int };
    if e.act_life < 0 {
        &&& e2 == e
        &&& r == 2
    } else if hit && life < 0 {
        &&& e2 == Ent { act_life: life as i32, f36: e.mail[0].1, mail: e2.mail, ..e }
        &&& e2.mail@ == e.mail@.update(0, (e.mail[0].0, 0u16))
        &&& r == 2
    } else {
        let m1 = if hit { e.mail@.update(0, (0u32, 0u16)) } else { e.mail@ };
        let up = e.mail[5].1 != 0;
        let m2 = if up { m1.update(5, (0u32, 0u16)) } else { m1 };
        let arm = up && e.mail[5].1 == e.id24 && e.f26 < 7;
        &&& e2 == Ent {
            act_life: life as i32,
            flags: if arm { e.flags | F_UPGRADE_ARMED } else { e.flags },
            mail: e2.mail,
            ..e
        }
        &&& e2.mail@ == m2
        &&& r == (if hit { 1u8 } else { 0u8 })
    }
}

/// A survived hit on the player's castle raises the castle alert.
pub open spec fn intake_alerts(e: Ent) -> bool {
    &&& e.act_life >= 0
    &&& e.mail[0].1 != 0
    &&& e.act_life - (e.mail[0].0 as i32) >= 0
    &&& e.id24 == PLAYER_TARGET
}

/// The first slot in `rival_ents` holding `own` (nonzero), or 0.
pub open spec fn owner_slot(rivals: Seq<u16>, own: u16, k: int) -> int
    decreases rivals.len() - k,
{
    if k >= rivals.len() || k < 0 {
        0
    } else if rivals[k] != 0 && rivals[k] == own {
        k
    } else {
        owner_slot(rivals, own, k + 1)
    }
}

/// The scaled castle life: `hp * scale >> 8` (an arithmetic shift, so
/// the floor of the quotient), before it is stored in 32 bits.
pub open spec fn scaled_hp(lvl: int, scale: int) -> int {
    (hp_spec(lvl) * scale) / 256
}

/// Half of a signed 32-bit value, rounded toward zero.
pub open spec fn half_toward_zero(v: int) -> int {
    if v >= 0 { v / 2 } else { -((-v) / 2) }
}

/// The life/capacity ladder on castle `e` at its level: a nonzero
/// scaled life (kept to its low 32 bits) becomes the max and the life,
/// minus any overkill debt capped at half the new max (the max read as
/// a signed value); the capacity follows the level.
pub open spec fn ladder_spec(e: Ent, scale: int) -> Ent {
    let lvl = clamp(e.f26 as int, 0, 7);
    let hp = scaled_hp(lvl, scale) as u32;
    let hs = hp as i32 as int;
    let e1 = if hp != 0 {
        let half = half_toward_zero(hs);
        let debt = if e.act_life < 0 {
            if -e.act_life < half { -e.act_life } else { half }
        } else {
            0
        };
        Ent { max_life: hp, act_life: (hs - debt) as i32, ..e }
    } else {
        e
    };
    Ent { f136: cap_spec(lvl), ..e1 }
}

/// The AABB half-extents from footprint row `row`, if the table has it.
pub open spec fn extents_spec(e: Ent, tab: Seq<BuildDef>, row: int) -> Ent {
    if 0 <= row < tab.len() {
        Ent { f80: half_extent(tab[row].w), f82: half_extent(tab[row].h), f84: 0x4000, ..e }
    } else {
        e
    }
}

/// The level-up pre-clear's victims: live class-10 model-45 buildings
/// (other than the castle) whose box touches the next level's box
/// (inclusive compare).
pub open spec fn preclear_hit(c: Ent, e: Ent, hw: int, hh: int) -> bool {
    &&& e.class64 == 10
    &&& e.model65 == 45
    &&& e.flags & F_DEAD == 0
    &&& axis_dist(e.x, c.x) <= e.f80 + hw
    &&& axis_dist(e.y, c.y) <= e.f82 + hh
}

/// A live class-10 model-2 object strictly overlapping the next box.
pub open spec fn space_blocker(c: Ent, e: Ent, hw: int, hh: int) -> bool {
    &&& e.class64 == 10
    &&& e.model65 == 2
    &&& e.flags & F_DEAD == 0
    &&& axis_dist(e.x, c.x) < e.f80 + hw
    &&& axis_dist(e.y, c.y) < e.f82 + hh
}

/// A footprint cell that a castle cannot grow over: built (bit7), or on
/// caves sealed (bit3).
pub open spec fn cell_blocked(an: Seq<u8>, cave: bool, x: int, y: int) -> bool {
    let a = an[tile_spec(x % 256, y % 256)];
    a & 0x80u8 != 0 || (cave && a & 8u8 != 0)
}

/// No blocked cell in the `w` x `h` rectangle at (ox, oy).
#[verifier::opaque]
pub open spec fn rect_clear(an: Seq<u8>, cave: bool, ox: int, oy: int, w: int, h: int) -> bool {
    forall|r: int, c: int| 0 <= r < h && 0 <= c < w ==> !#[trigger] cell_blocked(an, cave, ox + c, oy + r)
}

/// The ring geometry of a level-up, in wrapping byte coordinates: the
/// next box's half-size in tiles (`ow`, `oh`), the band widths (`mx`,
/// `my`), the NW corner (`ox`, `oy`), the far band origins (`far_x`,
/// `far_y`), the inner rows' first row `in_y` and their count.
pub ghost struct Ring {
    pub ow: u16,
    pub oh: u16,
    pub mx: u8,
    pub my: u8,
    pub ox: u8,
    pub oy: u8,
    pub far_x: u8,
    pub far_y: u8,
    pub in_y: u8,
    pub inner_rows: u8,
}

pub open spec fn ring_of(c: Ent, dc: BuildDef, dn: BuildDef) -> Ring {
    let ow = (half_extent(dn.w) / 256) as u16;
    let oh = (half_extent(dn.h) / 256) as u16;
    let iw = (half_extent(dc.w) / 256) as u16;
    let ih = (half_extent(dc.h) / 256) as u16;
    let mx: u8 = if ow > iw { (ow - iw) as u8 } else { 0 };
    let my: u8 = if oh > ih { (oh - ih) as u8 } else { 0 };
    let ox = u8_specs::wrapping_sub(center_spec(c.x) as u8, ow as u8);
    let oy = u8_specs::wrapping_sub(center_spec(c.y) as u8, oh as u8);
    Ring {
        ow,
        oh,
        mx,
        my,
        ox,
        oy,
        far_x: u8_specs::wrapping_sub(u8_specs::wrapping_add(ox, (2 * ow) as u8), mx),
        far_y: u8_specs::wrapping_sub(u8_specs::wrapping_add(oy, (2 * oh) as u8), my),
        in_y: u8_specs::wrapping_add(oy, my),
        inner_rows: (2 * ih) as u8,
    }
}

/// The space check for the next level: no blocking object overlaps the
/// next box, and the newly added ring of border cells is clear (top and
/// bottom bands `my` rows tall, left and right columns `mx` wide).
pub open spec fn space_spec(g: Gen, i: int) -> bool {
    let c = g.ent@[i];
    let tab = g.build_tab@;
    let cur = clamp(c.f26 as int, 0, 7);
    let next = clamp(c.f26 + 1, 1, 7);
    if cur >= tab.len() || next >= tab.len() {
        true
    } else {
        let dn = tab[next];
        let hw = half_extent(dn.w) as int;
        let hh = half_extent(dn.h) as int;
        &&& forall|j: int| 1 <= j < g.ent@.len() && j != i ==> !space_blocker(c, #[trigger] g.ent@[j], hw, hh)
        &&& ring_clear(g.t.angle@, g.t.ceiling@.len() != 0, ring_of(c, tab[cur], dn))
    }
}

/// The four bands of the ring are clear.
pub open spec fn ring_clear(an: Seq<u8>, cave: bool, rg: Ring) -> bool {
    &&& rect_clear(an, cave, rg.ox as int, rg.oy as int, 2 * rg.ow, rg.my as int)
    &&& rect_clear(an, cave, rg.ox as int, rg.far_y as int, 2 * rg.ow, rg.my as int)
    &&& rect_clear(an, cave, rg.ox as int, rg.in_y as int, rg.mx as int, rg.inner_rows as int)
    &&& rect_clear(an, cave, rg.far_x as int, rg.in_y as int, rg.mx as int, rg.inner_rows as int)
}

/// The summed mana (negatives as 0) of `own`'s live buildings among
/// slots 1..n.
pub open spec fn bank_sum(ents: Seq<Ent>, own: u16, n: int) -> int
    decreases n,
{
    if n <= 1 {
        0
    } else {
        let e = ents[n - 1];
        bank_sum(ents, own, n - 1) + if e.class64 == 10 && e.model65 == 45 && e.flags & F_DEAD == 0 && e.f144 == own {
            if e.f140 > 0 { e.f140 as int } else { 0 }
        } else {
            0
        }
    }
}

/// An owned live mana sphere overlapping castle `c`.
pub open spec fn absorbable(c: Ent, e: Ent) -> bool {
    &&& e.class64 == 10
    &&& e.model65 == 39
    &&& e.flags & F_DEAD == 0
    &&& e.f144 == c.id24
    &&& overlap_xy_spec(c, e)
}

/// The first absorbable sphere slot at or after `k`, or 0.
pub open spec fn first_sphere(ents: Seq<Ent>, i: int, k: int) -> int
    decreases ents.len() - k,
{
    if k >= ents.len() || k < 1 {
        0
    } else if absorbable(ents[i], ents[k]) {
        k
    } else {
        first_sphere(ents, i, k + 1)
    }
}

/// A live (10,79) stage piece of castle `i`.
pub open spec fn piece_of(e: Ent, i: int) -> bool {
    e.class64 == 10 && e.model65 == 79 && e.f146 == i && e.flags & F_DEAD == 0
}

/// The intake reports 2 exactly when the castle's life ends negative
/// (an already-dead castle counts); an idle tick leaves the life as it
/// was.
pub proof fn intake_lethal_iff_dead(e: Ent, e2: Ent, r: u8)
    requires
        intake_post(e, e2, r),
        e.act_life >= 0 && e.mail[0].1 != 0 ==> i32::MIN <= e.act_life - (e.mail[0].0 as i32) <= i32::MAX,
    ensures
        r <= 2,
        (r == 2) == (e2.act_life < 0),
        r == 0 ==> e2.act_life == e.act_life,
{
}

/// At a level that has life, the ladder leaves the castle alive: the
/// new max is the scaled life, and the life lies between half of it
/// (where an overkill debt is capped) and all of it.
pub proof fn ladder_keeps_alive(e: Ent, scale: int)
    requires
        0 <= scale <= 0x1_0000,
        e.act_life > i32::MIN,
        scaled_hp(clamp(e.f26 as int, 0, 7), scale) > 0,
    ensures
        ({
            let e2 = ladder_spec(e, scale);
            &&& e2.max_life as int == scaled_hp(clamp(e.f26 as int, 0, 7), scale)
            &&& e2.max_life - e2.max_life / 2 <= e2.act_life <= e2.max_life
            &&& e2.act_life > 0
        }),
{
    let lvl = clamp(e.f26 as int, 0, 7);
    let h = hp_spec(lvl) as int;
    assert(0 <= h <= 80000);
    assert(h * scale / 256 <= 80000 * 0x1_0000 / 256) by (nonlinear_arith)
        requires
            0 <= h <= 80000,
            0 <= scale <= 0x1_0000,
    ;
    assert(h * scale >= 0) by (nonlinear_arith)
        requires
            0 <= h,
            0 <= scale,
    ;
}

impl Gen {
    /// The damage intake of castle `i`: see [`intake_post`]. A hit on
    /// the player's castle raises the castle alert (4).
    #[verifier::spinoff_prover]
    #[verifier::rlimit(30)]
    pub fn mc2_castle_intake(&mut self, i: usize) -> (r: u8)
        requires
            i < old(self).ent@.len(),
            ({
                let e = old(self).ent@[i as int];
                e.act_life >= 0 && e.mail[0].1 != 0 ==> i32::MIN <= e.act_life - (e.mail[0].0 as i32) <= i32::MAX
            }),
        ensures
            intake_post(old(self).ent@[i as int], final(self).ent@[i as int], r),
            final(self).ent@ == old(self).ent@.update(i as int, final(self).ent@[i as int]),
            final(self).castle_alert == if intake_alerts(old(self).ent@[i as int]) {
                4u8
            } else {
                old(self).castle_alert
            },
            old(self).shape_eq(final(self)),
            final(self).t@ == old(self).t@,
            final(self).sounds == old(self).sounds,
            final(self).player_aggro == old(self).player_aggro,
            final(self).player_danger == old(self).player_danger,
            final(self).player_invisible == old(self).player_invisible,
            final(self).kills == old(self).kills,
            final(self).mc2_wanted == old(self).mc2_wanted,
    {
        let mut e = self.ent[i];
        if e.act_life < 0 {
            return 2;
        }
        let mut result: u8 = 0;
        if e.mail[0].1 != 0 {
            let (amt, src) = e.mail[0];
            e.act_life = e.act_life - amt as i32;
            if e.act_life < 0 {
                e.f36 = src;
                e.mail[0] = (amt, 0);
                self.ent.set(i, e);
                return 2;
            }
            e.mail[0] = (0, 0);
            result = 1;
            if e.id24 == PLAYER_TARGET {
                self.castle_alert = 4;
            }
        }
        if e.mail[5].1 != 0 {
            let sender = e.mail[5].1;
            e.mail[5] = (0, 0);
            if sender == e.id24 && e.f26 < 7 {
                e.flags = e.flags | F_UPGRADE_ARMED;
            }
        }
        self.ent.set(i, e);
        result
    }

    /// The life/capacity ladder of castle `i`: see [`ladder_spec`], with
    /// the owner's life scale (the first rival slot holding the owner,
    /// else slot 0).
    #[verifier::spinoff_prover]
    #[verifier::rlimit(30)]
    pub fn mc2_castle_ladder(&mut self, i: usize)
        requires
            old(self).wf(),
            i < old(self).ent@.len(),
            old(self).ent@[i as int].act_life > i32::MIN,
        ensures
            final(self).wf(),
            final(self).ent@ == old(self).ent@.update(
                i as int,
                ladder_spec(
                    old(self).ent@[i as int],
                    old(self).mc2_life_scale@[owner_slot(old(self).rival_ents@, old(self).ent@[i as int].id24, 0)] as int,
                ),
            ),
            old(self).frame_ent(final(self)),
    {
        let mut e = self.ent[i];
        let lvl: usize = if e.f26 < 0 {
            0
        } else if e.f26 > 7 {
            7
        } else {
            e.f26 as usize
        };
        let own = e.id24;
        let slot = self.owner_slot_of(own);
        let factor = self.mc2_life_scale[slot] as i64;
        let base = mc2_castle_hp(lvl) as i64;
        assert(-80000 * 0x8000_0000 <= base * factor <= 80000 * 0x8000_0000) by (nonlinear_arith)
            requires
                0 <= base <= 80000,
                -0x8000_0000 <= factor < 0x8000_0000,
        ;
        let prod = base * factor;
        let hp64 = prod >> 8;
        assert(hp64 == prod / 256) by (bit_vector)
            requires
                hp64 == prod >> 8i64,
        ;
        let hp = hp64 as u32;
        if hp != 0 {
            let hs = hp as i32;
            let half = hs / 2;
            assert(half as int == half_toward_zero(hs as int));
            let debt = if e.act_life < 0 {
                let owed = -e.act_life;
                if owed < half { owed } else { half }
            } else {
                0
            };
            e.max_life = hp;
            e.act_life = hs - debt;
        }
        e.f136 = mc2_castle_cap(lvl);
        self.ent.set(i, e);
    }

    /// The first rival slot holding owner `own`, or 0.
    fn owner_slot_of(&self, own: u16) -> (r: usize)
        requires
            self.wf(),
        ensures
            r as int == owner_slot(self.rival_ents@, own, 0),
            r < self.mc2_life_scale@.len(),
    {
        let mut k: usize = 0;
        while k < self.rival_ents.len()
            invariant
                self.wf(),
                k <= self.rival_ents@.len(),
                owner_slot(self.rival_ents@, own, 0) == owner_slot(self.rival_ents@, own, k as int),
            decreases self.rival_ents@.len() - k,
        {
            let r = self.rival_ents[k];
            if r != 0 && r == own {
                return k;
            }
            k += 1;
        }
        0
    }

    /// The AABB half-extents of entity `i` from footprint row `row`: see
    /// [`extents_spec`]. A row the table lacks leaves it unchanged.
    pub fn mc2_castle_extents_ent(&mut self, i: usize, row: u8)
        requires
            old(self).wf(),
            i < old(self).ent@.len(),
        ensures
            final(self).wf(),
            final(self).ent@ == old(self).ent@.update(
                i as int,
                extents_spec(old(self).ent@[i as int], old(self).build_tab@, row as int),
            ),
            old(self).frame_ent(final(self)),
    {
        if row as usize >= self.build_tab.len() {
            proof {
                assert(self.ent@ =~= old(self).ent@.update(i as int, old(self).ent@[i as int]));
            }
            return;
        }
        let def = self.build_tab[row as usize];
        let mut e = self.ent[i];
        e.f80 = half_ext(def.w);
        e.f82 = half_ext(def.h);
        e.f84 = 0x4000;
        self.ent.set(i, e);
    }

    /// The castle's AABB half-extents for level `lvl`.
    pub fn mc2_castle_extents(&mut self, i: usize, lvl: u8)
        requires
            old(self).wf(),
            i < old(self).ent@.len(),
        ensures
            final(self).wf(),
            final(self).ent@ == old(self).ent@.update(
                i as int,
                extents_spec(old(self).ent@[i as int], old(self).build_tab@, lvl as int),
            ),
            old(self).frame_ent(final(self)),
    {
        self.mc2_castle_extents_ent(i, lvl);
    }

    /// The level-up pre-clear of castle `i`: every building the next
    /// level's box touches is killed (life -1, font type 0). A next row
    /// the table lacks clears nothing.
    #[verifier::spinoff_prover]
    #[verifier::rlimit(30)]
    pub fn mc2_castle_preclear(&mut self, i: usize)
        requires
            old(self).wf(),
            i < old(self).ent@.len(),
            old(self).ent@[i as int].f26 < i16::MAX,
        ensures
            final(self).wf(),
            old(self).frame_ent(final(self)),
            ({
                let c = old(self).ent@[i as int];
                let tab = old(self).build_tab@;
                let next = clamp(c.f26 + 1, 1, 7);
                final(self).ent@ == if next >= tab.len() {
                    old(self).ent@
                } else {
                    let hw = half_extent(tab[next].w) as int;
                    let hh = half_extent(tab[next].h) as int;
                    Seq::new(old(self).ent@.len(), |j: int| {
                        let e = old(self).ent@[j];
                        if 1 <= j && j != i && preclear_hit(c, e, hw, hh) {
                            Ent { act_life: -1i32, f46: 0i16, ..e }
                        } else {
                            e
                        }
                    })
                }
            }),
    {
        let c = self.ent[i];
        let n1 = c.f26 + 1;
        let next: usize = if n1 < 1 {
            1
        } else if n1 > 7 {
            7
        } else {
            n1 as usize
        };
        if next >= self.build_tab.len() {
            return;
        }
        let def = self.build_tab[next];
        let hw = half_ext(def.w) as i32;
        let hh = half_ext(def.h) as i32;
        let ghost old_ents = self.ent@;
        let n = self.ent.len();
        let mut j: usize = 1;
        while j < n
            invariant
                self.wf(),
                old(self).frame_ent(self),
                old_ents == old(self).ent@,
                n == old_ents.len(),
                1 <= j <= n,
                i < n,
                c == old_ents[i as int],
                hw == half_extent(def.w) as int,
                hh == half_extent(def.h) as int,
                forall|k: int| 0 <= k < n ==> {
                    let e = old_ents[k];
                    #[trigger] self.ent@[k] == if 1 <= k < j && k != i && preclear_hit(c, e, hw as int, hh as int) {
                        Ent { act_life: -1i32, f46: 0i16, ..e }
                    } else {
                        e
                    }
                },
            decreases n - j,
        {
            let e = self.ent[j];
            if j != i && e.class64 == 10 && e.model65 == 45 && e.flags & F_DEAD == 0
                && axis_wd(e.x, c.x) <= e.f80 as i32 + hw && axis_wd(e.y, c.y) <= e.f82 as i32 + hh
            {
                let mut e2 = e;
                e2.act_life = -1;
                e2.f46 = 0;
                self.ent.set(j, e2);
            }
            j += 1;
        }
        proof {
            let tab = old(self).build_tab@;
            assert(self.ent@ =~= Seq::new(old_ents.len(), |k: int| {
                let e = old_ents[k];
                if 1 <= k && k != i && preclear_hit(c, e, hw as int, hh as int) {
                    Ent { act_life: -1i32, f46: 0i16, ..e }
                } else {
                    e
                }
            }));
        }
    }

    /// The space check for castle `i`'s next level: see [`space_spec`].
    pub fn mc2_castle_space_ok(&self, i: usize) -> (r: bool)
        requires
            self.wf(),
            i < self.ent@.len(),
            self.ent@[i as int].f26 < i16::MAX,
        ensures
            r == space_spec(*self, i as int),
    {
        let c = self.ent[i];
        let cur: usize = if c.f26 < 0 {
            0
        } else if c.f26 > 7 {
            7
        } else {
            c.f26 as usize
        };
        let n1 = c.f26 + 1;
        let next: usize = if n1 < 1 {
            1
        } else if n1 > 7 {
            7
        } else {
            n1 as usize
        };
        if cur >= self.build_tab.len() || next >= self.build_tab.len() {
            return true;
        }
        let dc = self.build_tab[cur];
        let dn = self.build_tab[next];
        let half_w = half_ext(dn.w) as i32;
        let half_h = half_ext(dn.h) as i32;
        if !self.castle_no_blocker(i, half_w, half_h) {
            return false;
        }
        self.castle_ring_clear(c, dc, dn)
    }

    /// The newly added ring of a level-up clear of blocked cells: see
    /// [`ring_clear`].
    fn castle_ring_clear(&self, c: Ent, dc: BuildDef, dn: BuildDef) -> (r: bool)
        requires
            self.wf(),
        ensures
            r == ring_clear(self.t.angle@, self.t.ceiling@.len() != 0, ring_of(c, dc, dn)),
    {
        let (ox, oy, mx, my, full_w, far_y, in_y, in_rows, far_x) = ring_geom(c, dc, dn);
        let r1 = self.castle_rect_clear(ox, oy, full_w, my);
        let r2 = self.castle_rect_clear(ox, far_y, full_w, my);
        let r3 = self.castle_rect_clear(ox, in_y, mx, in_rows);
        let r4 = self.castle_rect_clear(far_x, in_y, mx, in_rows);
        r1 && r2 && r3 && r4
    }

    /// No live class-10 model-2 object (other than `i`) overlaps castle
    /// `i`'s next box of half-size (hw, hh).
    #[verifier::spinoff_prover]
    #[verifier::rlimit(30)]
    fn castle_no_blocker(&self, i: usize, hw: i32, hh: i32) -> (r: bool)
        requires
            self.wf(),
            i < self.ent@.len(),
            0 <= hw <= 65535,
            0 <= hh <= 65535,
        ensures
            r == forall|j: int| 1 <= j < self.ent@.len() && j != i ==> !space_blocker(self.ent@[i as int], #[trigger] self.ent@[j], hw as int, hh as int),
    {
        let c = self.ent[i];
        let n = self.ent.len();
        let mut j: usize = 1;
        while j < n
            invariant
                self.wf(),
                n == self.ent@.len(),
                i < n,
                1 <= j <= n,
                c == self.ent@[i as int],
                0 <= hw <= 65535,
                0 <= hh <= 65535,
                forall|k: int| 1 <= k < j && k != i ==> !space_blocker(c, #[trigger] self.ent@[k], hw as int, hh as int),
            decreases n - j,
        {
            let e = self.ent[j];
            if j != i && e.class64 == 10 && e.model65 == 2 && e.flags & F_DEAD == 0
                && axis_wd(e.x, c.x) < e.f80 as i32 + hw && axis_wd(e.y, c.y) < e.f82 as i32 + hh
            {
                assert(space_blocker(c, self.ent@[j as int], hw as int, hh as int));
                return false;
            }
            j += 1;
        }
        true
    }

    /// No blocked cell in the `w` x `h` rectangle at (ox, oy).
    #[verifier::spinoff_prover]
    #[verifier::rlimit(30)]
    fn castle_rect_clear(&self, ox: u8, oy: u8, w: u8, h: u8) -> (r: bool)
        requires
            self.wf(),
        ensures
            r == rect_clear(self.t.angle@, self.t.ceiling@.len() != 0, ox as int, oy as int, w as int, h as int),
    {
        let cave = self.t.ceiling.len() != 0;
        let mut row: u8 = 0;
        while row < h
            invariant
                self.wf(),
                cave == (self.t.ceiling@.len() != 0),
                row <= h,
                forall|r: int, c: int| 0 <= r < row && 0 <= c < w ==> !#[trigger] cell_blocked(self.t.angle@, cave, ox + c, oy + r),
            decreases h - row,
        {
            let mut col: u8 = 0;
            while col < w
                invariant
                    self.wf(),
                    cave == (self.t.ceiling@.len() != 0),
                    row < h,
                    col <= w,
                    forall|r: int, c: int| 0 <= r < row && 0 <= c < w ==> !#[trigger] cell_blocked(self.t.angle@, cave, ox + c, oy + r),
                    forall|c: int| 0 <= c < col ==> !#[trigger] cell_blocked(self.t.angle@, cave, ox + c, oy + row),
                decreases w - col,
            {
                let x = ox.wrapping_add(col);
                let y = oy.wrapping_add(row);
                let a = self.t.angle[tile(x, y)];
                if a & 0x80 != 0 || (cave && a & 8 != 0) {
                    assert(cell_blocked(self.t.angle@, cave, ox + col, oy + row));
                    proof {
                        reveal(rect_clear);
                    }
                    return false;
                }
                col += 1;
            }
            row += 1;
        }
        proof {
            reveal(rect_clear);
        }
        true
    }

    /// The owner's building bank: the summed mana (negatives as 0) of
    /// `own`'s live class-10 model-45 buildings, capped at `i32::MAX`.
    pub fn mc2_owner_bank(&self, own: u16) -> (r: i32)
        requires
            self.wf(),
        ensures
            r == if bank_sum(self.ent@, own, self.ent@.len() as int) > i32::MAX {
                i32::MAX as int
            } else {
                bank_sum(self.ent@, own, self.ent@.len() as int)
            },
    {
        let n = self.ent.len();
        let mut bank: i64 = 0;
        let mut j: usize = 1;
        while j < n
            invariant
                n == self.ent@.len(),
                1 <= j <= n,
                n <= 65535,
                bank == bank_sum(self.ent@, own, j as int),
                0 <= bank <= (j as int) * 0x8000_0000,
            decreases n - j,
        {
            let e = self.ent[j];
            if e.class64 == 10 && e.model65 == 45 && e.flags & F_DEAD == 0 && e.f144 == own {
                if e.f140 > 0 {
                    bank = bank + e.f140 as i64;
                }
            }
            j += 1;
        }
        if bank > i32::MAX as i64 {
            i32::MAX
        } else {
            bank as i32
        }
    }

    /// The standing castle's sphere absorption: below capacity, the
    /// first owned live sphere overlapping it lands whole (its mana is
    /// added, the sphere despawns).
    #[verifier::spinoff_prover]
    #[verifier::rlimit(30)]
    pub fn mc2_castle_absorb(&mut self, i: usize)
        requires
            old(self).wf(),
            i < old(self).ent@.len(),
            ({
                let ents = old(self).ent@;
                let s = first_sphere(ents, i as int, 1);
                s != 0 && ents[i as int].f140 < ents[i as int].f136 ==> ents[i as int].f140 + ents[s].f140 <= i32::MAX && ents[i as int].f140 + ents[s].f140 >= i32::MIN
            }),
        ensures
            final(self).wf(),
            old(self).frame_ent(final(self)),
            ({
                let ents = old(self).ent@;
                let c = ents[i as int];
                let s = first_sphere(ents, i as int, 1);
                final(self).ent@ == if c.f140 >= c.f136 || s == 0 {
                    ents
                } else {
                    let e1 = ents.update(i as int, Ent { f140: (c.f140 + ents[s].f140) as i32, ..c });
                    e1.update(s, Ent { flags: e1[s].flags | F_DEAD, ..e1[s] })
                }
            }),
    {
        if self.ent[i].f140 >= self.ent[i].f136 {
            return;
        }
        let n = self.ent.len();
        let mut j: usize = 1;
        while j < n
            invariant
                self.wf(),
                old(self).frame_ent(self),
                self.ent@ == old(self).ent@,
                n == self.ent@.len(),
                i < n,
                1 <= j <= n,
                old(self).ent@[i as int].f140 < old(self).ent@[i as int].f136,
                ({
                    let ents = old(self).ent@;
                    let s = first_sphere(ents, i as int, 1);
                    s != 0 ==> ents[i as int].f140 + ents[s].f140 <= i32::MAX && ents[i as int].f140 + ents[s].f140 >= i32::MIN
                }),
                first_sphere(self.ent@, i as int, 1) == first_sphere(self.ent@, i as int, j as int),
            decreases n - j,
        {
            let e = self.ent[j];
            if e.class64 == 10 && e.model65 == 39 && e.flags & F_DEAD == 0 && e.f144 == self.ent[i].id24
                && self.mc2_overlap_xy(i, j)
            {
                let mut c = self.ent[i];
                c.f140 = c.f140 + e.f140;
                self.ent.set(i, c);
                let mut s = self.ent[j];
                s.flags = s.flags | F_DEAD;
                self.ent.set(j, s);
                return;
            }
            j += 1;
        }
    }

    /// Free castle `i`'s stage pieces (live (10,79) entities linked back
    /// to it despawn) and clear its chain root.
    #[verifier::spinoff_prover]
    #[verifier::rlimit(30)]
    pub fn mc2_castle_free_stages(&mut self, i: usize)
        requires
            old(self).wf(),
            i < old(self).ent@.len(),
        ensures
            final(self).wf(),
            old(self).frame_ent(final(self)),
            ({
                let ents = old(self).ent@;
                let freed = Seq::new(ents.len(), |j: int| {
                    let e = ents[j];
                    if 1 <= j && piece_of(e, i as int) {
                        Ent { flags: e.flags | F_DEAD, ..e }
                    } else {
                        e
                    }
                });
                final(self).ent@ == freed.update(i as int, Ent { f52: 0, ..freed[i as int] })
            }),
    {
        let ghost ents = self.ent@;
        let n = self.ent.len();
        let mut j: usize = 1;
        while j < n
            invariant
                self.wf(),
                old(self).frame_ent(self),
                ents == old(self).ent@,
                n == ents.len(),
                i < n,
                1 <= j <= n,
                forall|k: int| 0 <= k < n ==> #[trigger] self.ent@[k] == if 1 <= k < j && piece_of(ents[k], i as int) {
                    Ent { flags: ents[k].flags | F_DEAD, ..ents[k] }
                } else {
                    ents[k]
                },
            decreases n - j,
        {
            let e = self.ent[j];
            if e.class64 == 10 && e.model65 == 79 && e.f146 as usize == i && e.flags & F_DEAD == 0 {
                let mut e2 = e;
                e2.flags = e2.flags | F_DEAD;
                self.ent.set(j, e2);
            }
            j += 1;
        }
        let ghost freed = self.ent@;
        let mut c = self.ent[i];
        c.f52 = 0;
        self.ent.set(i, c);
        proof {
            let spec_freed = Seq::new(ents.len(), |k: int| {
                let e = ents[k];
                if 1 <= k && piece_of(e, i as int) {
                    Ent { flags: e.flags | F_DEAD, ..e }
                } else {
                    e
                }
            });
            assert(freed =~= spec_freed);
        }
    }
}

/// The ring geometry in bytes: (ox, oy, mx, my, full width, far_y,
/// in_y, inner rows, far_x); see [`ring_of`].
fn ring_geom(c: Ent, dc: BuildDef, dn: BuildDef) -> (r: (u8, u8, u8, u8, u8, u8, u8, u8, u8))
    ensures
        ({
            let rg = ring_of(c, dc, dn);
            &&& r.0 == rg.ox
            &&& r.1 == rg.oy
            &&& r.2 == rg.mx
            &&& r.3 == rg.my
            &&& r.4 as int == 2 * rg.ow
            &&& r.5 == rg.far_y
            &&& r.6 == rg.in_y
            &&& r.7 == rg.inner_rows
            &&& r.8 == rg.far_x
        }),
{
    let (iw, ow) = tiles_of(dc.w, dn.w);
    let (ih, oh) = tiles_of(dc.h, dn.h);
    let ox = center_byte(c.x).wrapping_sub(ow as u8);
    let oy = center_byte(c.y).wrapping_sub(oh as u8);
    let mx: u8 = if ow > iw { (ow - iw) as u8 } else { 0 };
    let my: u8 = if oh > ih { (oh - ih) as u8 } else { 0 };
    let full_w: u8 = 2 * (ow as u8);
    let far_y = oy.wrapping_add((2 * oh) as u8).wrapping_sub(my);
    let in_y = oy.wrapping_add(my);
    let in_rows = (2 * ih) as u8;
    let far_x = ox.wrapping_add((2 * ow) as u8).wrapping_sub(mx);
    (ox, oy, mx, my, full_w, far_y, in_y, in_rows, far_x)
}

/// The half-sizes in tiles of a current and a next footprint dimension.
fn tiles_of(dc: u8, dn: u8) -> (r: (u16, u16))
    ensures
        r.0 == (half_extent(dc) / 256) as u16,
        r.1 == (half_extent(dn) / 256) as u16,
        r.0 < 128,
        r.1 < 128,
{
    let hc = half_ext(dc);
    let hn = half_ext(dn);
    proof {
        crate::world::lemma_hi_byte(hc);
        crate::world::lemma_hi_byte(hn);
    }
    (hc >> 8, hn >> 8)
}

/// The stage-piece tile offsets (from the footprint's NW corner) for
/// castle level `lvl` (levels above 7 read level 7).
pub open spec fn stage_parts_spec(lvl: int) -> Seq<(u8, u8)> {
    if lvl <= 0 {
        seq![]
    } else if lvl == 1 {
        seq![(4u8, 4u8)]
    } else if lvl <= 3 {
        seq![(3u8, 3u8), (17u8, 3u8), (3u8, 17u8), (17u8, 17u8)]
    } else if lvl <= 5 {
        seq![(3u8, 3u8), (31u8, 3u8), (3u8, 31u8), (31u8, 31u8)]
    } else {
        seq![
            (3u8, 3u8),
            (24u8, 3u8),
            (45u8, 3u8),
            (3u8, 24u8),
            (45u8, 24u8),
            (3u8, 45u8),
            (24u8, 45u8),
            (45u8, 45u8),
        ]
    }
}

/// The stage-piece offsets for castle level `lvl`.
pub fn mc2_stage_parts(lvl: u8) -> (r: Vec<(u8, u8)>)
    ensures
        r@ == stage_parts_spec(lvl as int),
{
    if lvl == 0 {
        vec![]
    } else if lvl == 1 {
        vec![(4, 4)]
    } else if lvl <= 3 {
        vec![(3, 3), (17, 3), (3, 17), (17, 17)]
    } else if lvl <= 5 {
        vec![(3, 3), (31, 3), (3, 31), (31, 31)]
    } else {
        vec![(3, 3), (24, 3), (45, 3), (3, 24), (45, 24), (3, 45), (24, 45), (45, 45)]
    }
}


/// The castle piece's dwell tick on `e` with the draw `d` and the ground
/// height `ground` under it: dead or ownerless it dies; otherwise state
/// 0 latches (to 1), state 1 seeds a dwell of 16..=63 ticks (to 2), state
/// 2 counts it down (to 3 at 0), and the piece rides the ground, 384
/// above it at level 1 or below, else 224.
pub open spec fn piece_spec(e: Ent, d: u32, ground: i32) -> Ent {
    if e.act_life < 0 || e.id24 == 0 {
        Ent { flags: e.flags | F_DEAD, ..e }
    } else {
        let e1 = if e.f71 == 0 {
            Ent { f71: 1, ..e }
        } else if e.f71 == 1 {
            Ent { f44: (d % 48 + 16) as u16, f71: 2, ..e }
        } else if e.f71 == 2 {
            let w: u16 = if e.f44 == 0 { 0 } else { (e.f44 - 1) as u16 };
            Ent { f44: w, f71: if w == 0 { 3u8 } else { 2u8 }, ..e }
        } else {
            e
        };
        Ent { z: (ground as i16 + if e.f26 <= 1 { 384int } else { 224int }) as i16, ..e1 }
    }
}

impl Gen {
    /// The castle piece tick of entity `i`: see [`piece_spec`]; `d` is
    /// the draw from its random stream (read in state 1) and `ground`
    /// the engine's ground height under it.
    pub fn mc2_castle_piece_tick(&mut self, i: usize, d: u32, ground: i32)
        requires
            i < old(self).ent@.len(),
            ({
                let e = old(self).ent@[i as int];
                e.act_life >= 0 && e.id24 != 0 ==> ground as i16 + if e.f26 <= 1 { 384int } else { 224int } <= i16::MAX
            }),
        ensures
            final(self).ent@ == old(self).ent@.update(i as int, piece_spec(old(self).ent@[i as int], d, ground)),
            old(self).frame_ent(final(self)),
    {
        let mut e = self.ent[i];
        if e.act_life < 0 || e.id24 == 0 {
            e.flags = e.flags | F_DEAD;
            self.ent.set(i, e);
            return;
        }
        if e.f71 == 0 {
            e.f71 = 1;
        } else if e.f71 == 1 {
            e.f44 = (d % 0x30 + 16) as u16;
            e.f71 = 2;
        } else if e.f71 == 2 {
            e.f44 = e.f44.saturating_sub(1);
            if e.f44 == 0 {
                e.f71 = 3;
            }
        }
        let lift: i16 = if e.f26 <= 1 { 384 } else { 224 };
        e.z = ground as i16 + lift;
        self.ent.set(i, e);
    }
}


/// A new balloon of owner `own` in slot content `e`: class 3 model 3 at
/// the working action 9, 10000 life (full), speed 48, cargo cap 10000
/// and no cargo, vulnerable, row 9, owned and claimed by `own`, sprite
/// `169 + team` with its sprite-param extents `s`; on caves the placement
/// box becomes 256 by 768.
pub open spec fn balloon_spec(e: Ent, own: u16, team: u16, cave: bool, s: (u16, u16)) -> Ent {
    let e1 = Ent {
        class64: 3,
        model65: 3,
        tick70: 9,
        max_life: 10000,
        act_life: 10000,
        f126: 48,
        f136: 10000,
        f140: 0,
        f28: 1,
        row156: 9,
        id24: own,
        f144: own,
        ..e
    };
    let e2 = mc2_sprite_ent(e1, (169 + team) as u16, s);
    if cave { Ent { f80: 256, f82: 256, f84: 768, ..e2 } } else { e2 }
}

impl Gen {
    /// Spawn a balloon for owner `own` (see [`balloon_spec`]) into `slot`,
    /// the pool slot the engine's allocator handed out (`None` when the
    /// pool is full); `team` is the owner's team index (0 when it has
    /// none). Placing it in its map cell is the engine's, done on the
    /// slot returned.
    pub fn mc2_spawn_balloon(&mut self, own: u16, team: u16, slot: Option<usize>) -> (r: Option<usize>)
        requires
            slot matches Some(i) ==> i < old(self).ent@.len(),
            team <= 100,
            params_ok(*old(self), 169 + team),
        ensures
            r == slot,
            old(self).frame_ent(final(self)),
            r is None ==> final(self).ent == old(self).ent,
            r matches Some(i) ==> final(self).ent@ == old(self).ent@.update(i as int, balloon_spec(
                old(self).ent@[i as int],
                own,
                team,
                old(self).cave(),
                params_spec(*old(self), 169 + team),
            )),
    {
        let i = match slot {
            Some(i) => i,
            None => return None,
        };
        let mut e = self.ent[i];
        e.class64 = 3;
        e.model65 = 3;
        e.tick70 = 9;
        e.max_life = 10000;
        e.act_life = 10000;
        e.f126 = 48;
        e.f136 = 10000;
        e.f140 = 0;
        e.f28 = 1;
        e.row156 = 9;
        e.id24 = own;
        e.f144 = own;
        self.ent.set(i, e);
        self.mc2_set_sprite(i, 169 + team);
        if self.is_cave() {
            self.mc2_shift_rot(i, 256, 768);
        }
        Some(i)
    }
}

} // verus!
