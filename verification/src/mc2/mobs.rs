//! The MC2 creature column's shared helpers: the sprite-param setters,
//! the shift/rot extents, the half-life mana seed, the altitude core,
//! the state handlers' inbox/life head, the wizard "wanted" timers, the
//! target resolver, the pre-kill step, and two small per-model fixups.

use vstd::prelude::*;
use vstd::wrapping::i16_specs;
use crate::world::{Ent, Gen, MobCtx, PLAYER_TARGET, F_DEAD, seg_chain, seg_ends};
use crate::mobs::{awake_near, chain_f58, dist2_sq, wd16};
use crate::mc2::morph::{is_floor_sqrt, isqrt};

verus! {

broadcast use vstd::std_specs::hash::group_hash_axioms;

/// The goat block's first state.
pub const GOAT_BASE: u8 = 8;

/// The (speed_6, rot_speed_8) pair of sprite-param row `idx`: the
/// derived table when it has the row, else the static one.
pub open spec fn params_spec(g: Gen, idx: int) -> (u16, u16) {
    if idx < g.mc2_sprite_ext@.len() { g.mc2_sprite_ext@[idx] } else { g.sprite_params@[idx] }
}

/// A row the sprite-param lookup can serve.
pub open spec fn params_ok(g: Gen, idx: int) -> bool {
    0 <= idx && (idx < g.mc2_sprite_ext@.len() || idx < g.sprite_params@.len())
}

/// The MC2 sprite setter's entity: the row index and the rot/extent
/// quad halved from the row's pair.
pub open spec fn mc2_sprite_ent(e: Ent, idx: u16, p: (u16, u16)) -> Ent {
    Ent { type86: idx, frame88: 0, f78: p.1 / 2, f80: p.0 / 2, f82: p.0 / 2, f84: p.1 / 2, ..e }
}

/// The altitude core: sink by `z_step` while above ground, then clamp
/// to `ground + hover` (16-bit wrapping).
pub open spec fn alt_core_spec(z: i16, ground: i16, hover: i16, z_step: i16) -> i16 {
    let z1 = if z > ground { i16_specs::wrapping_add(z, z_step) } else { z };
    let floor = i16_specs::wrapping_add(ground, hover);
    if z1 <= floor { floor } else { z1 }
}

/// The first body segment (in chain order, other than `me`) weaker
/// than `life`.
pub open spec fn first_weaker(ents: Seq<Ent>, segs: Seq<int>, life: int, me: int, k: int) -> Option<int>
    decreases segs.len() - k,
{
    if k >= segs.len() || k < 0 {
        None
    } else if segs[k] != me && ents[segs[k]].act_life < life {
        Some(segs[k])
    } else {
        first_weaker(ents, segs, life, me, k + 1)
    }
}

/// The inbox/life head on entity `i`: the mail-0 amount comes off the
/// life and its sender becomes the last attacker (the amount stays, the
/// sender is cleared; no mail clears the attacker); the first body
/// segment weaker than the result lends its life and attacker; a
/// negative life latches the killer. The result is 0 quiet, 1 hit, 2
/// dead.
pub open spec fn state_head_post(ents: Seq<Ent>, i: int, e2: Ent, r: u8) -> bool {
    let e = ents[i];
    let hit = e.mail[0].1 != 0;
    let life1 = if hit { e.act_life - (e.mail[0].0 as i32) } else { e.act_life as int };
    let f40_1 = if hit { e.mail[0].1 } else { 0u16 };
    let segs = seg_chain(ents, e.f54 as int, ents.len());
    let (life2, f40_2, v1) = match first_weaker(ents, segs, life1, i, 0) {
        Some(j) => (ents[j].act_life as int, ents[j].f40, 1u8),
        None => (life1, f40_1, if hit { 1u8 } else { 0u8 }),
    };
    let dead = life2 < 0;
    &&& e2 == Ent { act_life: life2 as i32, f40: f40_2, f38: if dead { f40_2 } else { e.f38 }, mail: e2.mail, ..e }
    &&& e2.mail@ == if hit { e.mail@.update(0, (e.mail[0].0, 0u16)) } else { e.mail@ }
    &&& r == if dead { 2u8 } else { v1 }
}

/// The pre-kill walk over the body segments `segs`: each goes to state
/// `base + 5` and a nonzero killer latch of it is inherited by `i`.
pub open spec fn prekill_walk(ents: Seq<Ent>, segs: Seq<int>, i: int, base: int) -> Seq<Ent>
    decreases segs.len(),
{
    if segs.len() == 0 {
        ents
    } else {
        let prev = prekill_walk(ents, segs.drop_last(), i, base);
        let j = segs.last();
        let e1 = prev.update(j, Ent { tick70: (base + 5) as u8, ..prev[j] });
        if e1[j].f38 != 0 {
            e1.update(i, Ent { f38: e1[j].f38, ..e1[i] })
        } else {
            e1
        }
    }
}

/// Does a kill by `killer` of the creature `e` earn the player a kill?
pub open spec fn kill_credit(e: Ent, killer: u16) -> bool {
    &&& killer == PLAYER_TARGET
    &&& e.id24 != PLAYER_TARGET
    &&& !(e.model65 == 9 || e.model65 == 12 || e.model65 == 13 || e.model65 == 14 || e.model65 == 15)
}

/// A target slot's position: the player's for the player sentinel,
/// else a live pool entity's.
pub open spec fn target_spec(ents: Seq<Ent>, slot: u16, ctx: MobCtx) -> Option<(u16, u16, i16)> {
    if slot == PLAYER_TARGET {
        Some((ctx.px, ctx.py, ctx.pz))
    } else if slot == 0 || slot >= ents.len() {
        None
    } else {
        let t = ents[slot as int];
        if t.class64 == 0 || t.act_life < 0 || t.flags & F_DEAD != 0 {
            None
        } else {
            Some((t.x, t.y, t.z))
        }
    }
}

/// The altitude core: see [`alt_core_spec`].
pub fn mc2_alt_core(z: &mut i16, ground: i16, hover: i16, z_step: i16)
    ensures
        *final(z) == alt_core_spec(*old(z), ground, hover, z_step),
{
    if *z > ground {
        *z = z.wrapping_add(z_step);
    }
    if *z <= ground.wrapping_add(hover) {
        *z = ground.wrapping_add(hover);
    }
}

impl Gen {
    /// The (speed_6, rot_speed_8) pair of sprite-param row `idx`.
    pub fn mc2_params_ext(&self, idx: usize) -> (r: (u16, u16))
        requires
            params_ok(*self, idx as int),
        ensures
            r == params_spec(*self, idx as int),
    {
        if idx < self.mc2_sprite_ext.len() {
            self.mc2_sprite_ext[idx]
        } else {
            self.sprite_params[idx]
        }
    }

    /// Store sprite-param row `idx` on entity `i` and derive its
    /// rot/extent quad: see [`mc2_sprite_ent`].
    pub fn mc2_set_sprite(&mut self, i: usize, idx: u16)
        requires
            i < old(self).ent@.len(),
            params_ok(*old(self), idx as int),
        ensures
            final(self).ent@ == old(self).ent@.update(i as int, mc2_sprite_ent(old(self).ent@[i as int], idx, params_spec(*old(self), idx as int))),
            old(self).frame_ent(final(self)),
    {
        let (s6, r8) = self.mc2_params_ext(idx as usize);
        let mut e = self.ent[i];
        e.type86 = idx;
        e.frame88 = 0;
        e.f78 = r8 / 2;
        e.f80 = s6 / 2;
        e.f82 = s6 / 2;
        e.f84 = r8 / 2;
        self.ent.set(i, e);
    }

    /// The sprite setter with the extent quad doubled.
    pub fn mc2_set_sprite_x2(&mut self, i: usize, idx: u16)
        requires
            i < old(self).ent@.len(),
            params_ok(*old(self), idx as int),
        ensures
            ({
                let e = mc2_sprite_ent(old(self).ent@[i as int], idx, params_spec(*old(self), idx as int));
                final(self).ent@ == old(self).ent@.update(i as int, Ent { f80: (e.f80 * 2) as u16, f82: (e.f82 * 2) as u16, f84: (e.f84 * 2) as u16, ..e })
            }),
            old(self).frame_ent(final(self)),
    {
        self.mc2_set_sprite(i, idx);
        let mut e = self.ent[i];
        e.f80 = e.f80 * 2;
        e.f82 = e.f82 * 2;
        e.f84 = e.f84 * 2;
        self.ent.set(i, e);
    }

    /// The shift/rot extents: x and y half-extents `shift`, z `fov`.
    pub fn mc2_shift_rot(&mut self, i: usize, shift: u16, fov: u16)
        requires
            i < old(self).ent@.len(),
        ensures
            final(self).ent@ == old(self).ent@.update(i as int, Ent { f80: shift, f82: shift, f84: fov, ..old(self).ent@[i as int] }),
            old(self).frame_ent(final(self)),
    {
        let mut e = self.ent[i];
        e.f80 = shift;
        e.f82 = shift;
        e.f84 = fov;
        self.ent.set(i, e);
    }

    /// The mana seed: half the max life.
    pub fn mc2_set_mana_half(&mut self, i: usize)
        requires
            i < old(self).ent@.len(),
        ensures
            final(self).ent@ == old(self).ent@.update(i as int, Ent { f140: (old(self).ent@[i as int].max_life / 2) as i32, ..old(self).ent@[i as int] }),
            old(self).frame_ent(final(self)),
    {
        let mut e = self.ent[i];
        let m = e.max_life;
        assert(m >> 1u32 == m / 2) by (bit_vector);
        e.f140 = (m >> 1) as i32;
        self.ent.set(i, e);
    }

    /// The state handlers' inbox/life head on entity `i`: see
    /// [`state_head_post`].
    #[verifier::spinoff_prover]
    #[verifier::rlimit(30)]
    pub fn mc2_state_head(&mut self, i: usize) -> (r: u8)
        requires
            old(self).wf(),
            i < old(self).ent@.len(),
            ({
                let e = old(self).ent@[i as int];
                e.mail[0].1 != 0 ==> i32::MIN <= e.act_life - (e.mail[0].0 as i32) <= i32::MAX
            }),
            seg_ends(old(self).ent@, old(self).ent@[i as int].f54 as int, old(self).ent@.len()),
        ensures
            final(self).wf(),
            old(self).frame_ent(final(self)),
            final(self).ent@ == old(self).ent@.update(i as int, final(self).ent@[i as int]),
            state_head_post(old(self).ent@, i as int, final(self).ent@[i as int], r),
    {
        let ghost ents = self.ent@;
        let mut e = self.ent[i];
        let mut v: u8 = 0;
        if e.mail[0].1 != 0 {
            let (amt, src) = e.mail[0];
            e.act_life = e.act_life - amt as i32;
            e.mail[0] = (amt, 0);
            e.f40 = src;
            v = 1;
        } else {
            e.f40 = 0;
        }
        self.ent.set(i, e);
        let ghost ents1 = self.ent@;
        let ghost hit = ents[i as int].mail[0].1 != 0;
        let ghost life1 = if hit { ents[i as int].act_life - (ents[i as int].mail[0].0 as i32) } else { ents[i as int].act_life as int };
        let ghost f40_1 = if hit { ents[i as int].mail[0].1 } else { 0u16 };
        assert(ents1 =~= ents.update(i as int, Ent { act_life: life1 as i32, f40: f40_1, mail: ents1[i as int].mail, ..ents[i as int] }));
        match self.first_weaker_seg(e.f54, e.act_life, i, Ghost(ents)) {
            Some(j) => {
                let sj = self.ent[j];
                e.act_life = sj.act_life;
                e.f40 = sj.f40;
                v = 1;
            },
            None => {},
        }
        if e.act_life < 0 {
            e.f38 = e.f40;
            v = 2;
        }
        self.ent.set(i, e);
        v
    }

    /// The first body segment from `start` weaker than `life`, reading
    /// the current pool; the chain is the one of `ents`, whose links the
    /// pool shares.
    #[verifier::spinoff_prover]
    #[verifier::rlimit(30)]
    fn first_weaker_seg(&self, start: u16, life: i32, me: usize, Ghost(ents): Ghost<Seq<Ent>>) -> (r: Option<usize>)
        requires
            self.wf(),
            ents.len() == self.ent@.len(),
            me < ents.len(),
            self.ent@[me as int].act_life == life,
            forall|k: int| 0 <= k < ents.len() ==> (#[trigger] self.ent@[k]).f54 == ents[k].f54,
            forall|k: int| 0 <= k < ents.len() && k != me ==> #[trigger] self.ent@[k] == ents[k],
        ensures
            r is None <==> first_weaker(ents, seg_chain(ents, start as int, ents.len()), life as int, me as int, 0) is None,
            r matches Some(j) ==> first_weaker(ents, seg_chain(ents, start as int, ents.len()), life as int, me as int, 0) == Some(j as int),
            r matches Some(j) ==> j < self.ent@.len() && j != me,
    {
        let n = self.ent.len();
        let ghost segs = seg_chain(ents, start as int, n as nat);
        let mut j = start as usize;
        let mut steps: usize = 0;
        if j >= n {
            return None;
        }
        while j != 0 && steps < n
            invariant
                self.wf(),
                n == ents.len(),
                n == self.ent@.len(),
                steps <= n,
                j < n,
                segs == seg_chain(ents, start as int, n as nat),
                steps <= segs.len(),
                segs.skip(steps as int) == seg_chain(ents, j as int, (n - steps) as nat),
                me < n,
                self.ent@[me as int].act_life == life,
                forall|k: int| 0 <= k < n ==> (#[trigger] self.ent@[k]).f54 == ents[k].f54,
                forall|k: int| 0 <= k < n && k != me ==> #[trigger] self.ent@[k] == ents[k],
                first_weaker(ents, segs, life as int, me as int, 0) == first_weaker(ents, segs, life as int, me as int, steps as int),
            decreases n - steps,
        {
            proof {
                assert(seg_chain(ents, j as int, (n - steps) as nat).len() >= 1);
                assert(segs.skip(steps as int)[0] == j);
                assert(segs[steps as int] == j);
            }
            let s = self.ent[j];
            if s.act_life < life {
                return Some(j);
            }
            proof {
                let rest = seg_chain(ents, ents[j as int].f54 as int, (n - steps - 1) as nat);
                assert(seg_chain(ents, j as int, (n - steps) as nat) == seq![j as int] + rest);
                assert(segs.skip(steps as int + 1) =~= segs.skip(steps as int).skip(1));
                assert(segs.skip(steps as int).skip(1) =~= rest);
            }
            j = s.f54 as usize;
            steps += 1;
        }
        proof {
            assert(segs.skip(steps as int).len() == 0);
            assert(steps as int == segs.len());
        }
        None
    }

    /// Arm the "wanted" timer (200) on a hit/kill source that is a
    /// wizard: the player's aggro register, or a pool wizard's (class 3,
    /// model 0 or 1) timer.
    pub fn mc2_arm_wanted(&mut self, src: u16)
        ensures
            final(self).player_aggro == if src == PLAYER_TARGET { 200 } else { old(self).player_aggro },
            final(self).mc2_wanted@ == if src != PLAYER_TARGET && 0 < src < old(self).ent@.len()
                && old(self).ent@[src as int].class64 == 3 && old(self).ent@[src as int].model65 <= 1 {
                old(self).mc2_wanted@.insert(src, 200i16)
            } else {
                old(self).mc2_wanted@
            },
            old(self).shape_eq(final(self)),
            final(self).ent == old(self).ent,
            final(self).t@ == old(self).t@,
            final(self).sounds == old(self).sounds,
            final(self).castle_alert == old(self).castle_alert,
            final(self).player_danger == old(self).player_danger,
            final(self).player_invisible == old(self).player_invisible,
            final(self).kills == old(self).kills,
    {
        if src == PLAYER_TARGET {
            self.player_aggro = 200;
        } else {
            let j = src as usize;
            if j > 0 && j < self.ent.len() && self.ent[j].class64 == 3 && self.ent[j].model65 <= 1 {
                self.mc2_wanted.insert(src, 200);
            }
        }
    }

    /// Is `slot`'s wanted timer live (positive)?
    pub fn mc2_wanted_live(&self, slot: u16) -> (r: bool)
        ensures
            r == if slot == PLAYER_TARGET {
                self.player_aggro > 0
            } else {
                self.mc2_wanted@.contains_key(slot) && self.mc2_wanted@[slot] > 0
            },
    {
        if slot == PLAYER_TARGET {
            self.player_aggro > 0
        } else {
            match self.mc2_wanted.get(&slot) {
                Some(t) => *t > 0,
                None => false,
            }
        }
    }

    /// Resolve a target slot to a position: see [`target_spec`].
    pub fn mc2_target(&self, slot: u16, ctx: &MobCtx) -> (r: Option<(u16, u16, i16)>)
        ensures
            r == target_spec(self.ent@, slot, *ctx),
    {
        if slot == PLAYER_TARGET {
            return Some((ctx.px, ctx.py, ctx.pz));
        }
        let j = slot as usize;
        if j == 0 || j >= self.ent.len() {
            return None;
        }
        let t = &self.ent[j];
        if t.class64 == 0 || t.act_life < 0 || t.flags & F_DEAD != 0 {
            return None;
        }
        Some((t.x, t.y, t.z))
    }

    /// The pre-kill step: the body segments go to state `base + 5`
    /// (their killer latches inherited), a qualifying player kill is
    /// credited, then `i` goes to `base + 5`.
    #[verifier::spinoff_prover]
    #[verifier::rlimit(30)]
    pub fn mc2_prekill(&mut self, i: usize, base: u8)
        requires
            old(self).wf(),
            i < old(self).ent@.len(),
            base < 251,
            old(self).kills < u32::MAX,
            seg_ends(old(self).ent@, old(self).ent@[i as int].f54 as int, old(self).ent@.len()),
        ensures
            final(self).wf(),
            old(self).shape_eq(final(self)),
            ({
                let ents = old(self).ent@;
                let walked = prekill_walk(ents, seg_chain(ents, ents[i as int].f54 as int, ents.len()), i as int, base as int);
                &&& final(self).ent@ == walked.update(i as int, Ent { tick70: (base + 5) as u8, ..walked[i as int] })
                &&& final(self).kills == if kill_credit(walked[i as int], walked[i as int].f38) {
                    (old(self).kills + 1) as u32
                } else {
                    old(self).kills
                }
            }),
            final(self).t@ == old(self).t@,
            final(self).sounds == old(self).sounds,
            final(self).castle_alert == old(self).castle_alert,
            final(self).player_aggro == old(self).player_aggro,
            final(self).player_danger == old(self).player_danger,
            final(self).player_invisible == old(self).player_invisible,
            final(self).mc2_wanted == old(self).mc2_wanted,
    {
        let ghost ents = self.ent@;
        let n = self.ent.len();
        let ghost segs = seg_chain(ents, ents[i as int].f54 as int, n as nat);
        let mut j = self.ent[i].f54 as usize;
        let mut steps: usize = 0;
        while j != 0 && steps < n
            invariant
                self.wf(),
                old(self).frame_ent(self),
                n == ents.len(),
                ents == old(self).ent@,
                i < n,
                base < 251,
                steps <= n,
                j < n,
                segs == seg_chain(ents, ents[i as int].f54 as int, n as nat),
                steps <= segs.len(),
                segs.skip(steps as int) == seg_chain(ents, j as int, (n - steps) as nat),
                self.ent@ == prekill_walk(ents, segs.take(steps as int), i as int, base as int),
                forall|k: int| 0 <= k < n ==> (#[trigger] self.ent@[k]).f54 == ents[k].f54,
            decreases n - steps,
        {
            proof {
                assert(seg_chain(ents, j as int, (n - steps) as nat).len() >= 1);
                assert(segs.skip(steps as int)[0] == j);
                assert(segs[steps as int] == j);
                assert(segs.take(steps + 1).drop_last() =~= segs.take(steps as int));
            }
            let mut s = self.ent[j];
            let next = s.f54 as usize;
            s.tick70 = base + 5;
            self.ent.set(j, s);
            if s.f38 != 0 {
                let mut e = self.ent[i];
                e.f38 = s.f38;
                self.ent.set(i, e);
            }
            proof {
                let rest = seg_chain(ents, ents[j as int].f54 as int, (n - steps - 1) as nat);
                assert(seg_chain(ents, j as int, (n - steps) as nat) == seq![j as int] + rest);
                assert(segs.skip(steps as int + 1) =~= segs.skip(steps as int).skip(1));
                assert(segs.skip(steps as int).skip(1) =~= rest);
            }
            j = next;
            steps += 1;
        }
        proof {
            assert(segs.skip(steps as int).len() == 0);
            assert(segs.take(steps as int) =~= segs);
        }
        let e = self.ent[i];
        if e.f38 == PLAYER_TARGET && e.id24 != PLAYER_TARGET
            && !(e.model65 == 9 || e.model65 == 12 || e.model65 == 13 || e.model65 == 14 || e.model65 == 15)
        {
            self.kills = self.kills + 1;
        }
        let mut e = self.ent[i];
        e.tick70 = base + 5;
        self.ent.set(i, e);
    }

    /// The goat's speed fixup: in state `GOAT_BASE + 6` the speed drops
    /// to the minimum.
    pub fn goat_speed_fixup(&mut self, i: usize)
        requires
            i < old(self).ent@.len(),
        ensures
            final(self).ent@ == old(self).ent@.update(i as int, if old(self).ent@[i as int].tick70 == GOAT_BASE + 6 {
                Ent { f126: old(self).ent@[i as int].f_128, ..old(self).ent@[i as int] }
            } else {
                old(self).ent@[i as int]
            }),
            old(self).frame_ent(final(self)),
    {
        let mut e = self.ent[i];
        if e.tick70 == GOAT_BASE + 6 {
            e.f126 = e.f_128;
        }
        self.ent.set(i, e);
    }

    /// The archer back to its patrol form: minimum speed, sprite row 0,
    /// extents (128, 256), sprite class 3 and no sprite model.
    pub fn archer_unaim(&mut self, i: usize)
        requires
            i < old(self).ent@.len(),
            params_ok(*old(self), 0),
        ensures
            ({
                let e0 = old(self).ent@[i as int];
                let e1 = mc2_sprite_ent(Ent { f126: e0.f_128, ..e0 }, 0, params_spec(*old(self), 0));
                final(self).ent@ == old(self).ent@.update(i as int, Ent { f80: 128, f82: 128, f84: 256, f66: 3, f67: 0xFF, ..e1 })
            }),
            old(self).frame_ent(final(self)),
    {
        let mut e = self.ent[i];
        e.f126 = e.f_128;
        self.ent.set(i, e);
        self.mc2_set_sprite(i, 0);
        self.mc2_shift_rot(i, 128, 256);
        let mut e = self.ent[i];
        e.f66 = 3;
        e.f67 = 0xFF;
        self.ent.set(i, e);
    }
}


/// The entities the first awake loop steps: creatures outside the three
/// parked states that are not despawning.
pub open spec fn mc2_awake_creature(e: Ent) -> bool {
    &&& e.class64 == 5
    &&& !(e.tick70 == 0xB4 || e.tick70 == 0xE8 || e.tick70 == 0xEA)
    &&& e.flags & F_DEAD == 0
}

/// The entities the second awake loop steps: the mana-sphere family
/// (class 10, models 39 and 40) that is not despawning.
pub open spec fn mc2_awake_sphere(e: Ent) -> bool {
    &&& e.class64 == 10
    &&& (e.model65 == 39 || e.model65 == 40)
    &&& e.flags & F_DEAD == 0
}

/// The entities whose own counter the pass reads and decrements.
pub open spec fn mc2_awake_reads(e: Ent) -> bool {
    (mc2_awake_creature(e) && e.act_life >= 0) || mc2_awake_sphere(e)
}

/// One entity's awake step: an armed counter is mirrored into the body
/// segments and then counts down; a hidden entity holds; a waiting one
/// counts `f59` down; otherwise the player within reach arms 16
/// (segments 18), and the wait is cleared.
pub open spec fn mc2_awake_one_spec(ents: Seq<Ent>, i: int, ctx: MobCtx) -> Seq<Ent> {
    let e = ents[i];
    if e.f58 != 0 {
        let a = chain_f58(ents, e.f54 as int, e.f58);
        a.update(i, Ent { f58: (e.f58 - 1) as i16, ..a[i] })
    } else if e.flags & 1 != 0 {
        ents
    } else if e.f59 != 0 {
        ents.update(i, Ent { f59: (e.f59 - 1) as u8, ..e })
    } else {
        let a = if awake_near(e, ctx) {
            chain_f58(ents.update(i, Ent { f58: 16, ..e }), e.f54 as int, 18)
        } else {
            ents
        };
        a.update(i, Ent { f59: 0, ..a[i] })
    }
}

/// Slot `i`'s step of the first loop: dead creatures park at 0xFA.
pub open spec fn mc2_awake_step1(ents: Seq<Ent>, i: int, ctx: MobCtx) -> Seq<Ent> {
    let e = ents[i];
    if !mc2_awake_creature(e) {
        ents
    } else if e.act_life < 0 {
        ents.update(i, Ent { f58: 0xFA, f59: 0, ..e })
    } else {
        mc2_awake_one_spec(ents, i, ctx)
    }
}

/// Slot `i`'s step of the second loop.
pub open spec fn mc2_awake_step2(ents: Seq<Ent>, i: int, ctx: MobCtx) -> Seq<Ent> {
    if mc2_awake_sphere(ents[i]) {
        mc2_awake_one_spec(ents, i, ctx)
    } else {
        ents
    }
}

/// The first loop over slots `1..n`.
pub open spec fn mc2_awake_upto1(ents: Seq<Ent>, ctx: MobCtx, n: int) -> Seq<Ent>
    decreases n,
{
    if n <= 1 {
        ents
    } else {
        mc2_awake_step1(mc2_awake_upto1(ents, ctx, n - 1), n - 1, ctx)
    }
}

/// The second loop over slots `1..n`.
pub open spec fn mc2_awake_upto2(ents: Seq<Ent>, ctx: MobCtx, n: int) -> Seq<Ent>
    decreases n,
{
    if n <= 1 {
        ents
    } else {
        mc2_awake_step2(mc2_awake_upto2(ents, ctx, n - 1), n - 1, ctx)
    }
}

/// The whole MC2 awake pre-pass: the creature loop, then the sphere loop.
pub open spec fn mc2_awake_spec(ents: Seq<Ent>, ctx: MobCtx) -> Seq<Ent> {
    let a = mc2_awake_upto1(ents, ctx, ents.len() as int);
    mc2_awake_upto2(a, ctx, a.len() as int)
}

/// `a` is `b` with at most the wake counters (`f58`, `f59`) changed.
pub open spec fn wake_only(a: Ent, b: Ent) -> bool {
    Ent { f58: b.f58, f59: b.f59, ..a } == b
}

/// The squared 3-D distance on wrapped 16-bit horizontal deltas.
pub open spec fn dist3_sq_spec(a: (u16, u16, i16), b: (u16, u16, i16)) -> int {
    let dx = wd16(a.0, b.0);
    let dy = wd16(a.1, b.1);
    let dz = b.2 - a.2;
    dx * dx + dy * dy + dz * dz
}

impl Gen {
    /// One entity's awake step: see [`mc2_awake_one_spec`].
    #[verifier::spinoff_prover]
    pub fn mc2_awake_one(&mut self, i: usize, ctx: &MobCtx)
        requires
            old(self).wf(),
            i < old(self).ent@.len(),
            old(self).ent@[i as int].f58 > i16::MIN,
        ensures
            final(self).wf(),
            old(self).frame_ent(final(self)),
            final(self).ent@ == mc2_awake_one_spec(old(self).ent@, i as int, *ctx),
    {
        let e = self.ent[i];
        if e.f58 != 0 {
            let v = e.f58;
            self.seg_set_f58(e.f54, v);
            let mut e2 = self.ent[i];
            e2.f58 = v - 1;
            self.ent.set(i, e2);
            return;
        }
        if e.flags & 1 != 0 {
            return;
        }
        if e.f59 != 0 {
            let mut e2 = e;
            e2.f59 = e.f59 - 1;
            self.ent.set(i, e2);
            return;
        }
        if dist2_sq(e.x, e.y, ctx.px, ctx.py) < 0x240_0000 {
            let mut e2 = e;
            e2.f58 = 16;
            self.ent.set(i, e2);
            self.seg_set_f58(e.f54, 18);
        }
        let mut e3 = self.ent[i];
        e3.f59 = 0;
        self.ent.set(i, e3);
    }

    /// The MC2 awake pre-pass: see [`mc2_awake_spec`].
    #[verifier::spinoff_prover]
    #[verifier::rlimit(40)]
    pub fn mc2_awake_pass(&mut self, ctx: &MobCtx)
        requires
            old(self).wf(),
            forall|j: int| 0 <= j < old(self).ent@.len() && mc2_awake_reads(#[trigger] old(self).ent@[j])
                ==> old(self).ent@[j].f58 > i16::MIN,
        ensures
            final(self).wf(),
            old(self).frame_ent(final(self)),
            final(self).ent@ == mc2_awake_spec(old(self).ent@, *ctx),
    {
        let ghost ents = self.ent@;
        let n = self.ent.len();
        let mut i: usize = 1;
        while i < n
            invariant
                self.wf(),
                old(self).frame_ent(self),
                ents == old(self).ent@,
                n == ents.len(),
                1 <= i <= n,
                self.ent@ == mc2_awake_upto1(ents, *ctx, i as int),
                forall|j: int| 0 <= j < n ==> wake_only(ents[j], #[trigger] self.ent@[j]),
                forall|j: int| 0 <= j < n && mc2_awake_reads(ents[j]) && (i <= j || mc2_awake_sphere(ents[j]))
                    ==> (#[trigger] self.ent@[j]).f58 > i16::MIN,
            decreases n - i,
        {
            let ghost cur = self.ent@;
            let e = self.ent[i];
            proof {
                assert(wake_only(ents[i as int], cur[i as int]));
            }
            if e.class64 != 5 || e.tick70 == 0xB4 || e.tick70 == 0xE8 || e.tick70 == 0xEA || e.flags & 0x400 != 0 {
            } else if e.act_life < 0 {
                let mut e2 = e;
                e2.f58 = 0xFA;
                e2.f59 = 0;
                self.ent.set(i, e2);
            } else {
                self.mc2_awake_one(i, ctx);
            }
            proof {
                assert(self.ent@ == mc2_awake_step1(cur, i as int, *ctx));
                assert forall|j: int| 0 <= j < n implies wake_only(ents[j], #[trigger] self.ent@[j]) by {
                    assert(wake_only(ents[j], cur[j]));
                }
                assert forall|j: int| 0 <= j < n && mc2_awake_reads(ents[j]) && (i + 1 <= j || mc2_awake_sphere(ents[j]))
                    implies (#[trigger] self.ent@[j]).f58 > i16::MIN by {
                    assert(wake_only(ents[j], cur[j]));
                    if j == i {
                        assert(!mc2_awake_creature(cur[j]));
                    }
                }
            }
            i += 1;
        }
        let ghost mid = self.ent@;
        let mut i: usize = 1;
        while i < n
            invariant
                self.wf(),
                old(self).frame_ent(self),
                ents == old(self).ent@,
                n == ents.len(),
                n == mid.len(),
                1 <= i <= n,
                mid == mc2_awake_upto1(ents, *ctx, n as int),
                self.ent@ == mc2_awake_upto2(mid, *ctx, i as int),
                forall|j: int| 0 <= j < n ==> wake_only(ents[j], #[trigger] self.ent@[j]),
                forall|j: int| 0 <= j < n && i <= j && mc2_awake_sphere(ents[j])
                    ==> (#[trigger] self.ent@[j]).f58 > i16::MIN,
            decreases n - i,
        {
            let ghost cur = self.ent@;
            let e = self.ent[i];
            proof {
                assert(wake_only(ents[i as int], cur[i as int]));
            }
            if e.class64 == 10 && (e.model65 == 39 || e.model65 == 40) && e.flags & 0x400 == 0 {
                self.mc2_awake_one(i, ctx);
            }
            proof {
                assert(self.ent@ == mc2_awake_step2(cur, i as int, *ctx));
                assert forall|j: int| 0 <= j < n implies wake_only(ents[j], #[trigger] self.ent@[j]) by {
                    assert(wake_only(ents[j], cur[j]));
                }
                assert forall|j: int| 0 <= j < n && i + 1 <= j && mc2_awake_sphere(ents[j])
                    implies (#[trigger] self.ent@[j]).f58 > i16::MIN by {
                    assert(wake_only(ents[j], cur[j]));
                }
            }
            i += 1;
        }
    }

    /// The 3-D distance: the floor square root of the squared 16-bit
    /// deltas' sum.
    pub fn mc2_dist3(a: (u16, u16, i16), b: (u16, u16, i16)) -> (r: u32)
        requires
            dist3_sq_spec(a, b) <= i32::MAX,
        ensures
            is_floor_sqrt(dist3_sq_spec(a, b), r as int),
    {
        let dx = b.0.wrapping_sub(a.0) as i16 as i32;
        let dy = b.1.wrapping_sub(a.1) as i16 as i32;
        let dz = (b.2 as i32) - (a.2 as i32);
        assert(0 <= dx * dx && 0 <= dy * dy && 0 <= dz * dz) by (nonlinear_arith);
        let s = dx * dx + dy * dy + dz * dz;
        isqrt(s as u32)
    }
}


/// The archer's aim on `e` with one draw `d`: stop, the firing sprite
/// (206 when `d % 20 <= 10`, else 1) with its sprite-param extents
/// `s`, half-extents 128 and fov 256, and the target's class and model
/// in the filter bytes (the player, or a slot outside the pool, reads as
/// class 3 model 0).
pub open spec fn archer_aim_spec(ents: Seq<Ent>, e: Ent, d: u32, s: (u16, u16)) -> Ent {
    let sprite: u16 = if d % 20 <= 10 { 206 } else { 1 };
    let e1 = Ent { f80: 128, f82: 128, f84: 256, ..mc2_sprite_ent(Ent { f126: 0, ..e }, sprite, s) };
    let t = e.f146;
    let (c, m) = if t == PLAYER_TARGET || t >= ents.len() { (3u8, 0u8) } else { (ents[t as int].class64, ents[t as int].model65) };
    Ent { f66: c, f67: m, ..e1 }
}

/// The wander turn on `f34` from two draws `v`, `r`: a step of
/// `(r & 0xFF) + 85`, to the left or right by `v % 157 >= 79`, the
/// heading kept to 11 bits.
pub open spec fn wander_turn_spec(f34: u16, v: u32, r: u32) -> u16 {
    let sign = 2 * ((v % 157) / 79) - 1;
    let step = ((r & 0xFFu32) + 85) * sign;
    ((f34 + step) as u16) & 0x7FFu16
}

impl Gen {
    /// The archer's aim on entity `i`: see [`archer_aim_spec`]; `d` is
    /// the draw from its random stream.
    pub fn archer_aim(&mut self, i: usize, d: u32)
        requires
            i < old(self).ent@.len(),
            params_ok(*old(self), 206),
            params_ok(*old(self), 1),
        ensures
            final(self).ent@ == old(self).ent@.update(i as int, archer_aim_spec(
                old(self).ent@,
                old(self).ent@[i as int],
                d,
                params_spec(*old(self), if d % 20 <= 10 { 206 } else { 1 }),
            )),
            old(self).frame_ent(final(self)),
    {
        let mut e = self.ent[i];
        e.f126 = 0;
        self.ent.set(i, e);
        let sprite: u16 = if d % 0x14 <= 10 { 206 } else { 1 };
        self.mc2_set_sprite(i, sprite);
        self.mc2_shift_rot(i, 128, 256);
        let t = self.ent[i].f146;
        let (c, m) = if t == PLAYER_TARGET {
            (3u8, 0u8)
        } else if (t as usize) < self.ent.len() {
            (self.ent[t as usize].class64, self.ent[t as usize].model65)
        } else {
            (3u8, 0u8)
        };
        let mut e = self.ent[i];
        e.f66 = c;
        e.f67 = m;
        self.ent.set(i, e);
    }

    /// The wander turn of entity `i`: see [`wander_turn_spec`]; `v` and
    /// `r` are two consecutive draws from its random stream.
    pub fn mc2_wander_turn(&mut self, i: usize, v: u32, r: u32)
        requires
            i < old(self).ent@.len(),
        ensures
            final(self).ent@ == old(self).ent@.update(i as int, Ent { f34: wander_turn_spec(old(self).ent@[i as int].f34, v, r), ..old(self).ent@[i as int] }),
            old(self).frame_ent(final(self)),
    {
        assert((v % 0x9D) / 79 <= 1);
        let sign = 2 * ((v % 0x9D) / 79) as i32 - 1;
        assert(sign == 1 || sign == -1);
        let rr = r;
        assert(rr & 0xFF <= 255) by (bit_vector);
        let step = ((r & 0xFF) + 85) as i32 * sign;
        let mut e = self.ent[i];
        e.f34 = (e.f34 as i32 + step) as u16 & 0x7FF;
        self.ent.set(i, e);
    }
}


/// The spawn heading from a draw: `(d & 0x7FF) - 1` kept to 16 bits.
pub open spec fn draw_heading(d: u32) -> u16 {
    ((d & 0x7FFu32) as int - 1) as u16
}

/// The villager's sprite row by the second draw: `d % 9` of 0..=2 242,
/// 3..=5 271, 6..=7 241, 8 239.
pub open spec fn villager_sprite(d: u32) -> u16 {
    let v = d % 9;
    if v <= 2 { 242 } else if v <= 5 { 271 } else if v <= 7 { 241 } else { 239 }
}

/// A new villager in slot content `e`: class 5 model 13 at action 105,
/// speeds 18/54/18, 1000 life (full), no mana, heading from draw `d1`,
/// row 100, scan phase 64, timer 2, ordinal `ord`, the sprite picked by
/// draw `d2` with its sprite-param extents `s`, then half-extents 128
/// and fov 128.
pub open spec fn villager_spec(e: Ent, d1: u32, d2: u32, ord: u8, s: (u16, u16)) -> Ent {
    let f = draw_heading(d1);
    let e1 = Ent {
        class64: 5,
        model65: 13,
        tick70: 105,
        f28: 1,
        f_128: 54,
        f130: 18,
        f126: 18,
        f34: f,
        f30: f,
        f_32: f,
        max_life: 1000,
        act_life: 1000,
        f140: 0,
        f44: 500,
        row156: 100,
        f58: 64,
        f26: 2,
        f63: ord,
        ..e
    };
    Ent { f80: 128, f82: 128, f84: 128, ..mc2_sprite_ent(e1, villager_sprite(d2), s) }
}

/// A new archer in slot content `e`: class 5 model 4 at action 33,
/// stationary (speeds 30/30/0), 1000 life (full) and 500 mana, heading
/// from draw `d`, row 75, ordinal `ord`, the wake stagger
/// `period - ord % period + 4` with `period` the row's word 26 (at least
/// 1), sprite 0 with its sprite-param extents `s`, then half-extents 128
/// and fov 256.
pub open spec fn archer_spec(e: Ent, d: u32, ord: u8, v26: i16, s: (u16, u16)) -> Ent {
    let f = draw_heading(d);
    let period: int = if v26 < 1 { 1 } else { v26 as int };
    let e1 = Ent {
        class64: 5,
        model65: 4,
        tick70: 33,
        f28: 1,
        f_128: 30,
        f130: 0,
        f126: 30,
        max_life: 1000,
        act_life: 1000,
        f140: 500,
        f34: f,
        f30: f,
        f_32: f,
        f44: 500,
        row156: 75,
        f63: ord,
        f58: (period - (ord as int) % period + 4) as i16,
        ..e
    };
    Ent { f80: 128, f82: 128, f84: 256, ..mc2_sprite_ent(e1, 0, s) }
}

/// The spawn heading from a draw: see [`draw_heading`].
fn heading_of(d: u32) -> (r: u16)
    ensures
        r == draw_heading(d),
{
    assert(d & 0x7FF <= 0x7FF) by (bit_vector);
    ((d & 0x7FF) as i32 - 1) as u16
}

impl Gen {
    /// Spawn a villager (see [`villager_spec`]) into `slot`, the pool slot
    /// the engine's allocator handed out (`None` when the pool is full).
    /// `draws` are the two draws from the new entity's random stream (the
    /// heading, then the sprite pick) and `ord` the model's spawn ordinal
    /// from the engine's counter. Placing it in its map cell is the
    /// engine's, done on the slot returned.
    pub fn mc2_spawn_villager(&mut self, slot: Option<usize>, draws: (u32, u32), ord: u8) -> (r: Option<usize>)
        requires
            slot matches Some(i) ==> i < old(self).ent@.len(),
            params_ok(*old(self), villager_sprite(draws.1) as int),
        ensures
            r == slot,
            old(self).frame_ent(final(self)),
            r is None ==> final(self).ent == old(self).ent,
            r matches Some(i) ==> final(self).ent@ == old(self).ent@.update(i as int, villager_spec(
                old(self).ent@[i as int],
                draws.0,
                draws.1,
                ord,
                params_spec(*old(self), villager_sprite(draws.1) as int),
            )),
    {
        let i = match slot {
            Some(i) => i,
            None => return None,
        };
        let mut e = self.ent[i];
        e.class64 = 5;
        e.model65 = 13;
        e.tick70 = 105;
        e.f28 = 1;
        e.f_128 = 54;
        e.f130 = 18;
        e.f126 = 18;
        let f = heading_of(draws.0);
        e.f34 = f;
        e.f30 = f;
        e.f_32 = f;
        e.max_life = 1000;
        e.f140 = 0;
        e.f44 = 500;
        e.row156 = 100;
        e.f58 = 64;
        e.f26 = 2;
        e.f63 = ord;
        e.act_life = 1000;
        self.ent.set(i, e);
        let v = draws.1 % 9;
        let sprite: u16 = if v <= 2 { 242 } else if v <= 5 { 271 } else if v <= 7 { 241 } else { 239 };
        self.mc2_set_sprite(i, sprite);
        self.mc2_shift_rot(i, 128, 128);
        Some(i)
    }

    /// Spawn archers (see [`archer_spec`]) into `slot`, the pool slot the
    /// engine's allocator handed out (`None` when the pool is full). `d`
    /// is the draw from the new entity's random stream, `ord` the model's
    /// spawn ordinal from the engine's counter and `v26` behavior row
    /// 75's word 26. Placing it in its map cell is the engine's, done on
    /// the slot returned.
    pub fn mc2_spawn_archers(&mut self, slot: Option<usize>, d: u32, ord: u8, v26: i16) -> (r: Option<usize>)
        requires
            slot matches Some(i) ==> i < old(self).ent@.len(),
            params_ok(*old(self), 0),
            v26 <= i16::MAX - 4,
        ensures
            r == slot,
            old(self).frame_ent(final(self)),
            r is None ==> final(self).ent == old(self).ent,
            r matches Some(i) ==> final(self).ent@ == old(self).ent@.update(i as int, archer_spec(
                old(self).ent@[i as int],
                d,
                ord,
                v26,
                params_spec(*old(self), 0),
            )),
    {
        let i = match slot {
            Some(i) => i,
            None => return None,
        };
        let mut e = self.ent[i];
        e.class64 = 5;
        e.model65 = 4;
        e.tick70 = 33;
        e.f28 = 1;
        e.f_128 = 30;
        e.f130 = 0;
        e.f126 = 30;
        e.max_life = 1000;
        e.f140 = 500;
        let f = heading_of(d);
        e.f34 = f;
        e.f30 = f;
        e.f_32 = f;
        e.f44 = 500;
        e.row156 = 75;
        e.f63 = ord;
        let period: i16 = if v26 < 1 { 1 } else { v26 };
        e.f58 = (period - (ord as i16 % period)) + 4;
        e.act_life = 1000;
        self.ent.set(i, e);
        self.mc2_set_sprite(i, 0);
        self.mc2_shift_rot(i, 128, 256);
        Some(i)
    }
}


/// The creature models a building's footprint clear spares.
pub open spec fn clear_protected(e: Ent) -> bool {
    ||| e.model65 == 6 || e.model65 == 8 || e.model65 == 10 || e.model65 == 16
    ||| e.model65 == 22 || e.model65 == 23 || e.model65 == 27
    ||| e.model65 == 25 && e.tick70 == 200
}

/// The pool after a footprint clear along the cell chain `c`: every
/// creature on it but the builder and the protected models dies.
pub open spec fn clear_tile_pool(ents: Seq<Ent>, c: Seq<int>, builder: int) -> Seq<Ent> {
    Seq::new(ents.len(), |k: int| {
        if c.contains(k) && k != builder && ents[k].class64 == 5 && !clear_protected(ents[k]) {
            Ent { act_life: -1i32, ..ents[k] }
        } else {
            ents[k]
        }
    })
}

/// The scenery entities (class 2) on the chain `c`, builder aside, in
/// chain order: the ones the clear removes.
pub open spec fn clear_frees(ents: Seq<Ent>, c: Seq<int>, builder: int) -> Seq<usize>
    decreases c.len(),
{
    if c.len() == 0 {
        Seq::empty()
    } else {
        let k = c.last();
        clear_frees(ents, c.drop_last(), builder) + if k != builder && ents[k].class64 == 2 {
            seq![k as usize]
        } else {
            Seq::<usize>::empty()
        }
    }
}

impl Gen {
    /// The footprint clear of map cell `t` for the building in slot
    /// `builder`: see [`clear_tile_pool`]. The cell chain is walked for
    /// at most the pool's size of links. Returns the scenery entities to
    /// remove (see [`clear_frees`]); freeing a pool slot is the engine's.
    #[verifier::spinoff_prover]
    #[verifier::rlimit(30)]
    pub fn mc2_building_clear_tile(&mut self, t: usize, builder: usize) -> (frees: Vec<usize>)
        requires
            old(self).wf(),
            t < crate::world::PLANE_CELLS,
        ensures
            final(self).wf(),
            old(self).frame_ent(final(self)),
            ({
                let c = crate::world::chain(old(self).ent@, old(self).map_entity@[t as int] as int, old(self).ent@.len());
                &&& final(self).ent@ == clear_tile_pool(old(self).ent@, c, builder as int)
                &&& frees@ == clear_frees(old(self).ent@, c, builder as int)
            }),
    {
        let ghost ents = self.ent@;
        let ghost full = crate::world::chain(ents, self.map_entity@[t as int] as int, ents.len());
        let n = self.ent.len();
        let mut frees: Vec<usize> = Vec::new();
        let mut j = self.map_entity[t] as usize;
        let mut steps: usize = 0;
        proof {
            assert(full.take(0) =~= Seq::<int>::empty());
            assert(self.ent@ =~= clear_tile_pool(ents, full.take(0), builder as int));
        }
        while j != 0 && steps < n
            invariant
                old(self).frame_ent(self),
                self.wf(),
                ents == old(self).ent@,
                n == ents.len(),
                steps <= n,
                j < n,
                t < crate::world::PLANE_CELLS,
                full == crate::world::chain(ents, old(self).map_entity@[t as int] as int, n as nat),
                steps <= full.len(),
                full.skip(steps as int) == crate::world::chain(ents, j as int, (n - steps) as nat),
                self.ent@ == clear_tile_pool(ents, full.take(steps as int), builder as int),
                frees@ == clear_frees(ents, full.take(steps as int), builder as int),
            decreases n - steps,
        {
            proof {
                assert(crate::world::chain(ents, j as int, (n - steps) as nat).len() >= 1);
                assert(full.skip(steps as int)[0] == j);
                assert(full[steps as int] == j);
            }
            let e = self.ent[j];
            let next = e.next20 as usize;
            if j != builder {
                if e.class64 == 2 {
                    frees.push(j);
                } else if e.class64 == 5 {
                    let m = e.model65;
                    let protected = m == 6 || m == 8 || m == 10 || m == 16 || m == 22 || m == 23 || m == 27
                        || (m == 25 && e.tick70 == 200);
                    if !protected {
                        let mut e2 = e;
                        e2.act_life = -1;
                        self.ent.set(j, e2);
                    }
                }
            }
            proof {
                let rest = crate::world::chain(ents, ents[j as int].next20 as int, (n - steps - 1) as nat);
                assert(crate::world::chain(ents, j as int, (n - steps) as nat) == seq![j as int] + rest);
                assert(full.skip(steps as int + 1) =~= full.skip(steps as int).skip(1));
                assert(full.skip(steps as int).skip(1) =~= rest);
                assert(full.take(steps as int + 1).drop_last() =~= full.take(steps as int));
                assert(full.take(steps as int + 1).last() == j);
                assert(self.ent@ =~= clear_tile_pool(ents, full.take(steps as int + 1), builder as int));
            }
            j = next;
            steps += 1;
        }
        proof {
            assert(full.skip(steps as int).len() == 0);
            assert(full.take(steps as int) =~= full);
        }
        frees
    }
}


/// The 38 x 38 tile block of the pyramid's footprint wipe around tile
/// (cx, cy), row by row from (cx - 19, cy - 19), both axes wrapping.
pub open spec fn wipe_tiles(cx: u8, cy: u8) -> Seq<int> {
    Seq::new(1444, |n: int| crate::world::tile_spec((cx as int - 19 + n % 38) % 256, (cy as int - 19 + n / 38) % 256))
}

/// The cell chains of `tiles`, one after the other.
pub open spec fn chains_of(ents: Seq<Ent>, map: Seq<u16>, tiles: Seq<int>) -> Seq<int>
    decreases tiles.len(),
{
    if tiles.len() == 0 {
        Seq::empty()
    } else {
        chains_of(ents, map, tiles.drop_last()) + crate::world::chain(ents, map[tiles.last()] as int, ents.len())
    }
}

/// Pools with the same links have the same cell chains.
pub proof fn lemma_chain_same_links(a: Seq<Ent>, b: Seq<Ent>, j: int, fuel: nat)
    requires
        a.len() == b.len(),
        forall|k: int| 0 <= k < a.len() ==> #[trigger] a[k].next20 == b[k].next20,
    ensures
        crate::world::chain(a, j, fuel) == crate::world::chain(b, j, fuel),
    decreases fuel,
{
    if fuel > 0 && 0 < j < a.len() {
        lemma_chain_same_links(a, b, a[j].next20 as int, (fuel - 1) as nat);
    }
}

/// Pools with the same links have the same chains over any cells.
pub proof fn lemma_chains_of_same_links(a: Seq<Ent>, b: Seq<Ent>, map: Seq<u16>, tiles: Seq<int>)
    requires
        a.len() == b.len(),
        forall|k: int| 0 <= k < a.len() ==> #[trigger] a[k].next20 == b[k].next20,
    ensures
        chains_of(a, map, tiles) == chains_of(b, map, tiles),
    decreases tiles.len(),
{
    if tiles.len() > 0 {
        lemma_chains_of_same_links(a, b, map, tiles.drop_last());
        lemma_chain_same_links(a, b, map[tiles.last()] as int, a.len());
    }
}

/// Every slot on the chains of any cells is a pool slot.
pub proof fn lemma_chains_of_in_pool(ents: Seq<Ent>, map: Seq<u16>, tiles: Seq<int>)
    ensures
        forall|w: int| 0 <= w < chains_of(ents, map, tiles).len() ==> 0 < #[trigger] chains_of(ents, map, tiles)[w] < ents.len(),
    decreases tiles.len(),
{
    if tiles.len() > 0 {
        let a = chains_of(ents, map, tiles.drop_last());
        let b = crate::world::chain(ents, map[tiles.last()] as int, ents.len());
        lemma_chains_of_in_pool(ents, map, tiles.drop_last());
        lemma_chain_in_pool(ents, map[tiles.last()] as int, ents.len());
        assert forall|w: int| 0 <= w < chains_of(ents, map, tiles).len() implies 0 < #[trigger] chains_of(ents, map, tiles)[w] < ents.len() by {
            if w < a.len() {
                assert(chains_of(ents, map, tiles)[w] == a[w]);
            } else {
                assert(chains_of(ents, map, tiles)[w] == b[w - a.len()]);
            }
        }
    }
}

/// Two footprint clears in turn are one clear along both chains.
pub proof fn lemma_clear_compose(ents: Seq<Ent>, c: Seq<int>, d: Seq<int>, builder: int)
    ensures
        clear_tile_pool(clear_tile_pool(ents, c, builder), d, builder) == clear_tile_pool(ents, c + d, builder),
{
    assert forall|k: int| #![trigger (c + d).contains(k)] (c + d).contains(k) <==> c.contains(k) || d.contains(k) by {
        if c.contains(k) {
            let w = choose|w: int| 0 <= w < c.len() && c[w] == k;
            assert((c + d)[w] == k);
        }
        if d.contains(k) {
            let w = choose|w: int| 0 <= w < d.len() && d[w] == k;
            assert((c + d)[c.len() + w] == k);
        }
        if (c + d).contains(k) {
            let w = choose|w: int| 0 <= w < (c + d).len() && (c + d)[w] == k;
            if w < c.len() {
                assert(c[w] == k);
            } else {
                assert(d[w - c.len()] == k);
            }
        }
    }
    assert(clear_tile_pool(clear_tile_pool(ents, c, builder), d, builder) =~= clear_tile_pool(ents, c + d, builder));
}

/// The removals along two chains are those along each, in turn; and a
/// clear leaves what the removals read (the kinds) as it was.
pub proof fn lemma_frees_concat(ents: Seq<Ent>, other: Seq<Ent>, c: Seq<int>, d: Seq<int>, builder: int)
    requires
        ents.len() == other.len(),
        forall|k: int| 0 <= k < ents.len() ==> #[trigger] ents[k].class64 == other[k].class64,
        forall|w: int| 0 <= w < d.len() ==> 0 <= #[trigger] d[w] < ents.len(),
    ensures
        clear_frees(ents, c + d, builder) == clear_frees(ents, c, builder) + clear_frees(other, d, builder),
    decreases d.len(),
{
    if d.len() == 0 {
        assert(c + d =~= c);
    } else {
        assert((c + d).drop_last() =~= c + d.drop_last());
        lemma_frees_concat(ents, other, c, d.drop_last(), builder);
        assert((c + d).last() == d.last());
        assert(ents[d.last()].class64 == other[d.last()].class64);
    }
}

/// Every slot on a cell chain is a pool slot other than 0.
pub proof fn lemma_chain_in_pool(ents: Seq<Ent>, j: int, fuel: nat)
    ensures
        forall|w: int| 0 <= w < crate::world::chain(ents, j, fuel).len() ==> 0 < #[trigger] crate::world::chain(ents, j, fuel)[w] < ents.len(),
    decreases fuel,
{
    if fuel > 0 && 0 < j < ents.len() {
        let r = crate::world::chain(ents, ents[j].next20 as int, (fuel - 1) as nat);
        lemma_chain_in_pool(ents, ents[j].next20 as int, (fuel - 1) as nat);
        assert(crate::world::chain(ents, j, fuel) == seq![j] + r);
        assert forall|w: int| 0 <= w < crate::world::chain(ents, j, fuel).len() implies 0 < #[trigger] crate::world::chain(ents, j, fuel)[w] < ents.len() by {
            if w > 0 {
                assert(crate::world::chain(ents, j, fuel)[w] == r[w - 1]);
            }
        }
    }
}

impl Gen {
    /// The pyramid's activation wipe around tile (cx, cy): the footprint
    /// clear of every cell of the 38 x 38 block (see [`wipe_tiles`]) for
    /// the pyramid in slot `own`; returns the scenery entities to remove,
    /// block order then chain order.
    #[verifier::spinoff_prover]
    #[verifier::rlimit(40)]
    pub fn mc2_pyramid_wipe(&mut self, cx: u8, cy: u8, own: usize) -> (frees: Vec<usize>)
        requires
            old(self).wf(),
        ensures
            final(self).wf(),
            old(self).frame_ent(final(self)),
            ({
                let c = chains_of(old(self).ent@, old(self).map_entity@, wipe_tiles(cx, cy));
                &&& final(self).ent@ == clear_tile_pool(old(self).ent@, c, own as int)
                &&& frees@ == clear_frees(old(self).ent@, c, own as int)
            }),
    {
        let ghost ents = self.ent@;
        let ghost map = self.map_entity@;
        let ghost tiles = wipe_tiles(cx, cy);
        let mut frees: Vec<usize> = Vec::new();
        proof {
            assert(tiles.take(0) =~= Seq::<int>::empty());
            assert(self.ent@ =~= clear_tile_pool(ents, chains_of(ents, map, tiles.take(0)), own as int));
        }
        let mut j: u8 = 0;
        while j < 38
            invariant
                j <= 38,
                self.wf(),
                old(self).frame_ent(self),
                ents == old(self).ent@,
                map == old(self).map_entity@,
                tiles == wipe_tiles(cx, cy),
                self.ent@ == clear_tile_pool(ents, chains_of(ents, map, tiles.take(38 * j as int)), own as int),
                frees@ == clear_frees(ents, chains_of(ents, map, tiles.take(38 * j as int)), own as int),
            decreases 38 - j,
        {
            let y = cy.wrapping_sub(19).wrapping_add(j);
            let mut k: u8 = 0;
            while k < 38
                invariant
                    j < 38,
                    k <= 38,
                    y as int == (cy as int - 19 + j as int) % 256,
                    self.wf(),
                    old(self).frame_ent(self),
                    ents == old(self).ent@,
                    map == old(self).map_entity@,
                    tiles == wipe_tiles(cx, cy),
                    self.ent@ == clear_tile_pool(ents, chains_of(ents, map, tiles.take(38 * j + k)), own as int),
                    frees@ == clear_frees(ents, chains_of(ents, map, tiles.take(38 * j + k)), own as int),
                decreases 38 - k,
            {
                let x = cx.wrapping_sub(19).wrapping_add(k);
                let t = crate::world::tile(x, y);
                let ghost m = 38 * j + k;
                let ghost pre = self.ent@;
                let ghost cm = chains_of(ents, map, tiles.take(m));
                proof {
                    assert(x as int == (cx as int - 19 + k as int) % 256);
                    assert(m % 38 == k && m / 38 == j) by (nonlinear_arith)
                        requires
                            m == 38 * j + k,
                            0 <= k < 38,
                            0 <= j,
                    ;
                    assert(tiles[m] == t as int);
                    assert(tiles.take(m + 1).drop_last() =~= tiles.take(m));
                    assert(tiles.take(m + 1).last() == t as int);
                }
                let mut f = self.mc2_building_clear_tile(t, own);
                proof {
                    let ch = crate::world::chain(ents, map[t as int] as int, ents.len());
                    lemma_chain_same_links(pre, ents, map[t as int] as int, ents.len());
                    lemma_clear_compose(ents, cm, ch, own as int);
                    lemma_chain_in_pool(ents, map[t as int] as int, ents.len());
                    lemma_frees_concat(ents, pre, cm, ch, own as int);
                }
                frees.append(&mut f);
                k += 1;
            }
            j += 1;
        }
        proof {
            assert(tiles.take(1444int) =~= tiles);
        }
        frees
    }
}


/// A new goat in slot content `e` in slot `i`: class 5 model 1 at
/// action 9, speeds 18/54/18, 600 life (full) and 300 mana, heading 0,
/// timer `i % 100`, row 98 with scan phase `v26 + 1` (the row's word
/// 26), ordinal `ord`, and sprite 238 with its sprite-param extents
/// `s`.
pub open spec fn goat_spec(e: Ent, i: int, ord: u8, v26: i16, s: (u16, u16)) -> Ent {
    let e1 = Ent {
        class64: 5,
        model65: 1,
        tick70: 9,
        f28: 1,
        f_128: 54,
        f130: 18,
        f126: 18,
        max_life: 600,
        act_life: 600,
        f140: 300,
        f34: 0,
        f30: 0,
        f_32: 0,
        f26: (i % 100) as i16,
        row156: 98,
        f58: (v26 + 1) as i16,
        f63: ord,
        ..e
    };
    mc2_sprite_ent(e1, 238, s)
}

impl Gen {
    /// Spawn a goat (see [`goat_spec`]) into `slot`, the pool slot the
    /// engine's allocator handed out (`None` when the pool is full). `ord`
    /// is the model's spawn ordinal from the engine's counter and `v26`
    /// behavior row 98's word 26. Placing it in its map cell is the
    /// engine's, done on the slot returned.
    pub fn mc2_spawn_goat(&mut self, slot: Option<usize>, ord: u8, v26: i16) -> (r: Option<usize>)
        requires
            slot matches Some(i) ==> i < old(self).ent@.len(),
            params_ok(*old(self), 238),
            v26 < i16::MAX,
        ensures
            r == slot,
            old(self).frame_ent(final(self)),
            r is None ==> final(self).ent == old(self).ent,
            r matches Some(i) ==> final(self).ent@ == old(self).ent@.update(i as int, goat_spec(
                old(self).ent@[i as int],
                i as int,
                ord,
                v26,
                params_spec(*old(self), 238),
            )),
    {
        let i = match slot {
            Some(i) => i,
            None => return None,
        };
        let mut e = self.ent[i];
        e.class64 = 5;
        e.model65 = 1;
        e.tick70 = 9;
        e.f28 = 1;
        e.f_128 = 54;
        e.f130 = 18;
        e.f126 = 18;
        e.max_life = 600;
        e.f140 = 300;
        e.f34 = 0;
        e.f30 = 0;
        e.f_32 = 0;
        e.f26 = (i % 100) as i16;
        e.row156 = 98;
        e.f58 = v26 + 1;
        e.f63 = ord;
        e.act_life = 600;
        self.ent.set(i, e);
        self.mc2_set_sprite(i, 238);
        Some(i)
    }
}


/// A new ground fire element in slot content `e`: class 10 model 0 at
/// action 0, 8 life (full), 400 area-damage amount, `f56` 0, flags with
/// bit 3 and bit 17 cleared then bit 17 set, sprite-param row 7 with its
/// extents `s`, then half-extents 128 and fov 128.
pub open spec fn fire_spec(e: Ent, s: (u16, u16)) -> Ent {
    let e1 = Ent {
        class64: 10,
        model65: 0,
        tick70: 0,
        max_life: 8,
        act_life: 8,
        f140: 400,
        f56: 0,
        flags: (e.flags & 0xFFFD_FFF7u32) | 0x2_0000,
        ..e
    };
    Ent { f80: 128, f82: 128, f84: 128, ..mc2_sprite_ent(e1, 7, s) }
}

impl Gen {
    /// Spawn a ground fire element (see [`fire_spec`]) into `slot`, the
    /// pool slot the engine's allocator handed out (`None` when the pool
    /// is full). Placing it in its map cell is the engine's, done on the
    /// slot returned.
    pub fn mc2_spawn_fire(&mut self, slot: Option<usize>) -> (r: Option<usize>)
        requires
            slot matches Some(i) ==> i < old(self).ent@.len(),
            params_ok(*old(self), 7),
        ensures
            r == slot,
            old(self).frame_ent(final(self)),
            r is None ==> final(self).ent == old(self).ent,
            r matches Some(i) ==> final(self).ent@ == old(self).ent@.update(i as int, fire_spec(old(self).ent@[i as int], params_spec(*old(self), 7))),
    {
        let i = match slot {
            Some(i) => i,
            None => return None,
        };
        let mut e = self.ent[i];
        e.class64 = 10;
        e.model65 = 0;
        e.tick70 = 0;
        e.max_life = 8;
        e.f140 = 400;
        e.f56 = 0;
        e.flags = (e.flags & 0xFFFD_FFF7) | 0x2_0000;
        e.act_life = 8;
        self.ent.set(i, e);
        self.mc2_set_sprite(i, 7);
        self.mc2_shift_rot(i, 128, 128);
        Some(i)
    }
}


} // verus!
