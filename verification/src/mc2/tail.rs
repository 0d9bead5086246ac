//! The MC2 aura: a short-lived emitter that tags every creature in its
//! reach through the channel-4 mailbox.

use vstd::prelude::*;
use crate::world::{Ent, Gen, F_DEAD};
use crate::mobs::{dist2_sq, dist2_spec};
use crate::mc2::morph::{floor_sqrt, isqrt, lemma_floor_sqrt, lemma_floor_sqrt_unique};

verus! {

/// The aura's squared reach (0xC40000).
pub const AURA_RANGE_SQ: i32 = 12_845_056;

/// The tag strength at squared distance `d`: its floor square root,
/// capped at 42.
pub open spec fn aura_amount(d: i32) -> u32 {
    let r = floor_sqrt((d as u32) as nat);
    if r < 42 { r as u32 } else { 42 }
}

/// Does the aura at (ax, ay) tag `v`: a live creature with a free
/// channel-4 sender, strictly inside the reach?
pub open spec fn aura_hits(v: Ent, ax: u16, ay: u16) -> bool {
    &&& v.class64 == 5
    &&& v.flags & F_DEAD == 0
    &&& v.mail[4].1 == 0
    &&& dist2_spec(ax, ay, v.x, v.y) < AURA_RANGE_SQ
}

/// `w` is `v` with channel 4 holding `(amount, src)`.
pub open spec fn mail4_tagged(w: Ent, v: Ent, amount: u32, src: u16) -> bool {
    &&& w == Ent { mail: w.mail, ..v }
    &&& w.mail@ == v.mail@.update(4, (amount, src))
}

/// What the aura tick leaves at slot `j` (other than the aura itself).
pub open spec fn aura_victim(w: Ent, v: Ent, e: Ent) -> bool {
    if e.act_life >= 0 && aura_hits(v, e.x, e.y) {
        mail4_tagged(w, v, aura_amount(dist2_spec(e.x, e.y, v.x, v.y)), e.id24)
    } else {
        w == v
    }
}

/// The tag strength never exceeds 42 (so the amount's high word is
/// always 0).
pub proof fn aura_amount_capped(d: i32)
    ensures
        aura_amount(d) <= 42,
{
}

impl Gen {
    /// The aura tick on entity `i`: life counts down (below zero it
    /// despawns); while alive, every creature from slot 1 up that it
    /// [`aura_hits`] gets the channel-4 tag `(aura_amount(d²), aura
    /// id)`. First come, one tag per victim; no direct damage.
    #[verifier::spinoff_prover]
    #[verifier::rlimit(30)]
    pub fn mc2_aura_tick(&mut self, i: usize)
        requires
            old(self).wf(),
            i < old(self).ent@.len(),
            old(self).ent@[i as int].act_life > i32::MIN,
        ensures
            final(self).wf(),
            old(self).frame_ent(final(self)),
            ({
                let ents = old(self).ent@;
                let e = ents[i as int];
                let e1 = Ent { act_life: (e.act_life - 1) as i32, ..e };
                &&& final(self).ent@[i as int] == if e.act_life < 0 { Ent { flags: e.flags | F_DEAD, ..e1 } } else { e1 }
                &&& i != 0 ==> final(self).ent@[0] == ents[0]
                &&& forall|j: int| 1 <= j < ents.len() && j != i ==> aura_victim(#[trigger] final(self).ent@[j], ents[j], e)
            }),
    {
        let ghost ents = self.ent@;
        let mut e = self.ent[i];
        let life = e.act_life;
        e.act_life = life - 1;
        if life < 0 {
            e.flags = e.flags | 0x400;
            self.ent.set(i, e);
            return;
        }
        self.ent.set(i, e);
        let ax = e.x;
        let ay = e.y;
        let src = e.id24;
        let n = self.ent.len();
        let mut j: usize = 1;
        while j < n
            invariant
                self.wf(),
                old(self).frame_ent(self),
                ents == old(self).ent@,
                n == ents.len(),
                1 <= j <= n,
                i < n,
                life >= 0,
                ax == ents[i as int].x,
                ay == ents[i as int].y,
                src == ents[i as int].id24,
                life == ents[i as int].act_life,
                self.ent@[i as int] == (Ent { act_life: (life - 1) as i32, ..ents[i as int] }),
                forall|k: int| 0 <= k < n && k != i && (k < j ==> k == 0) ==> #[trigger] self.ent@[k] == ents[k],
                forall|k: int| 1 <= k < j && k != i ==> aura_victim(#[trigger] self.ent@[k], ents[k], ents[i as int]),
            decreases n - j,
        {
            let v = self.ent[j];
            if j != i && v.class64 == 5 && v.flags & 0x400 == 0 && v.mail[4].1 == 0 {
                let d2 = dist2_sq(ax, ay, v.x, v.y);
                if d2 < AURA_RANGE_SQ {
                    let r = isqrt(d2 as u32);
                    proof {
                        lemma_floor_sqrt((d2 as u32) as nat);
                        lemma_floor_sqrt_unique((d2 as u32) as int, r as int, floor_sqrt((d2 as u32) as nat) as int);
                    }
                    let mag = if r < 42 { r } else { 42 };
                    let mut w = v;
                    w.mail[4] = (mag, src);
                    self.ent.set(j, w);
                    proof {
                        assert(mail4_tagged(w, ents[j as int], mag, src));
                    }
                }
            }
            j += 1;
        }
    }
}


/// The new proximity aura in slot content `e` at (x, y, z): class 10
/// model 54 at action 0x3B, 128 life (full), speed 256, 100 mana, a yaw
/// from the draw `d`, bit 0 set and bit 3 (targetable) clear, extents
/// 1024 and 0x4000.
pub open spec fn aura_spec(e: Ent, x: u16, y: u16, z: i16, d: u32) -> Ent {
    Ent {
        class64: 10,
        model65: 54,
        tick70: 0x3B,
        max_life: 128,
        act_life: 128,
        f126: 256,
        flags: (e.flags & 0xFFFF_FFF7u32) | 1,
        f140: 100,
        f26: 0,
        f30: (d & 0x7FFu32) as u16,
        x,
        y,
        z,
        f80: 1024,
        f82: 1024,
        f84: 0x4000,
        ..e
    }
}

impl Gen {
    /// Spawn a proximity aura (see [`aura_spec`]) into `slot`, the pool
    /// slot the engine's allocator handed out (`None` when the pool is
    /// full); `d` is the draw from the new entity's random stream. The
    /// aura stays out of the map cells.
    pub fn mc2_spawn_aura(&mut self, x: u16, y: u16, z: i16, slot: Option<usize>, d: u32) -> (r: Option<usize>)
        requires
            slot matches Some(i) ==> i < old(self).ent@.len(),
        ensures
            r == slot,
            old(self).frame_ent(final(self)),
            r is None ==> final(self).ent == old(self).ent,
            r matches Some(i) ==> final(self).ent@ == old(self).ent@.update(i as int, aura_spec(old(self).ent@[i as int], x, y, z, d)),
    {
        let i = match slot {
            Some(i) => i,
            None => return None,
        };
        let mut e = self.ent[i];
        e.class64 = 10;
        e.model65 = 54;
        e.tick70 = 0x3B;
        e.max_life = 128;
        e.f126 = 256;
        e.flags = e.flags & 0xFFFF_FFF7;
        e.f140 = 100;
        e.f26 = 0;
        e.f30 = (d & 0x7FF) as u16;
        e.x = x;
        e.y = y;
        e.z = z;
        e.flags = e.flags | 1;
        e.act_life = 128;
        e.f80 = 1024;
        e.f82 = 1024;
        e.f84 = 0x4000;
        self.ent.set(i, e);
        Some(i)
    }
}


/// The new wandering fire trail in slot content `e` at (x, y, z): class
/// 10 model 15 at action 15, 128 life (full), speed 256, 100 mana, bit
/// 3 (targetable) clear, a yaw from the draw `d`, extents 1024 and
/// 0x4000.
pub open spec fn fire_trail_spec(e: Ent, x: u16, y: u16, z: i16, d: u32) -> Ent {
    Ent {
        class64: 10,
        model65: 15,
        tick70: 15,
        max_life: 128,
        act_life: 128,
        f126: 256,
        flags: e.flags & 0xFFFF_FFF7u32,
        f140: 100,
        f26: 0,
        x,
        y,
        z,
        f30: (d & 0x7FFu32) as u16,
        f80: 1024,
        f82: 1024,
        f84: 0x4000,
        ..e
    }
}

impl Gen {
    /// Spawn a wandering fire trail (see [`fire_trail_spec`]) into
    /// `slot`, the pool slot the engine's allocator handed out (`None`
    /// when the pool is full); `d` is the draw from the new entity's
    /// random stream. The trail stays out of the map cells.
    pub fn mc2_spawn_fire_trail(&mut self, x: u16, y: u16, z: i16, slot: Option<usize>, d: u32) -> (r: Option<usize>)
        requires
            slot matches Some(i) ==> i < old(self).ent@.len(),
        ensures
            r == slot,
            old(self).frame_ent(final(self)),
            r is None ==> final(self).ent == old(self).ent,
            r matches Some(i) ==> final(self).ent@ == old(self).ent@.update(i as int, fire_trail_spec(old(self).ent@[i as int], x, y, z, d)),
    {
        let i = match slot {
            Some(i) => i,
            None => return None,
        };
        let mut e = self.ent[i];
        e.class64 = 10;
        e.model65 = 15;
        e.tick70 = 15;
        e.max_life = 128;
        e.f126 = 256;
        e.flags = e.flags & 0xFFFF_FFF7;
        e.f140 = 100;
        e.f26 = 0;
        e.x = x;
        e.y = y;
        e.z = z;
        e.f30 = (d & 0x7FF) as u16;
        e.act_life = 128;
        e.f80 = 1024;
        e.f82 = 1024;
        e.f84 = 0x4000;
        self.ent.set(i, e);
        Some(i)
    }
}

} // verus!
