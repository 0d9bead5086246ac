//! The MC2 scenery column's damage inbox and ground-probe classifier.

use vstd::prelude::*;
use crate::world::{Ent, Gen, F_DEAD};

verus! {

/// The scenery laws whose tick is a bare ground sample on a stationary
/// entity: class 2, models 1..=3, not despawning.
pub open spec fn ground_probe_spec(e: Ent) -> bool {
    e.class64 == 2 && (e.model65 == 1 || e.model65 == 2 || e.model65 == 3) && e.flags & F_DEAD == 0
}

impl Gen {
    /// The scenery damage inbox of entity `i`: a pending channel-0 mail
    /// is taken (its sender cleared) and handed back as `(amount,
    /// sender)`; no mail gives `None`.
    pub fn mc2_scenery_hit(&mut self, i: usize) -> (r: Option<(u32, u16)>)
        requires
            i < old(self).ent@.len(),
        ensures
            old(self).frame_ent(final(self)),
            ({
                let e = old(self).ent@[i as int];
                if e.mail[0].1 == 0 {
                    r is None && final(self).ent == old(self).ent
                } else {
                    &&& r == Some(e.mail[0])
                    &&& final(self).ent@.len() == old(self).ent@.len()
                    &&& forall|j: int| 0 <= j < old(self).ent@.len() && j != i ==> #[trigger] final(self).ent@[j] == old(self).ent@[j]
                    &&& final(self).ent@[i as int] == (Ent { mail: final(self).ent@[i as int].mail, ..e })
                    &&& final(self).ent@[i as int].mail@ == e.mail@.update(0, (e.mail[0].0, 0u16))
                }
            }),
    {
        if self.ent[i].mail[0].1 == 0 {
            return None;
        }
        let mut e = self.ent[i];
        let (amt, src) = e.mail[0];
        e.mail[0] = (amt, 0);
        self.ent.set(i, e);
        Some((amt, src))
    }

    /// Is entity `i` one of the stationary ground-sampling scenery
    /// laws? See [`ground_probe_spec`].
    pub fn mc2_is_ground_probe(&self, i: usize) -> (r: bool)
        requires
            i < self.ent@.len(),
        ensures
            r == ground_probe_spec(self.ent@[i as int]),
    {
        let e = &self.ent[i];
        e.class64 == 2 && (e.model65 == 1 || e.model65 == 2 || e.model65 == 3) && e.flags & 0x400 == 0
    }
}


/// The new falling prop of `model` (7 or 8) in slot content `e`: class
/// 2 at action 20 (model 7) or 21, burnable, phase 0, fall velocity
/// -128, speed 0, life 400..=2399 from the first draw (full), the sprite
/// row 322 (model 7) or 323 with its stats `s`.
pub open spec fn falling_spec(e: Ent, model: u8, d1: u32, s: crate::world::SpriteStats) -> Ent {
    let life = (d1 % 2000 + 400) as u32;
    let e1 = Ent {
        class64: 2,
        model65: model,
        tick70: if model == 7 { 20u8 } else { 21u8 },
        f56: 1,
        f28: 1,
        f71: 0,
        f44: 0xFF80,
        f126: 0,
        max_life: life,
        act_life: life as i32,
        ..e
    };
    crate::mobs::sprite_ent(e1, if model == 7 { 322u16 } else { 323u16 }, s)
}

/// The falling prop's placement: (x, y) jittered by the second and third
/// draws, `(d & 0x3F) - 32` each.
pub open spec fn falling_pos(x: u16, y: u16, z: i16, d2: u32, d3: u32) -> (u16, u16, i16) {
    (
        vstd::wrapping::u16_specs::wrapping_add(x, crate::mobs::tree_jitter(d2) as u16),
        vstd::wrapping::u16_specs::wrapping_add(y, crate::mobs::tree_jitter(d3) as u16),
        z,
    )
}

impl Gen {
    /// Spawn a falling prop (see [`falling_spec`]) into `slot`, the pool
    /// slot the engine's allocator handed out (`None` when the pool is
    /// full). `draws` are three draws from the new entity's random
    /// stream (life, x jitter, y jitter). Returns the slot and the
    /// position (see [`falling_pos`]) at which the engine places it in
    /// its map cell.
    pub fn mc2_spawn_falling(&mut self, model: u8, x: u16, y: u16, z: i16, slot: Option<usize>, draws: (u32, u32, u32)) -> (r: Option<(usize, (u16, u16, i16))>)
        requires
            slot matches Some(i) ==> i < old(self).ent@.len(),
            (if model == 7 { 322int } else { 323int }) < old(self).sprite_stats@.len(),
        ensures
            r == match slot {
                Some(i) => Some((i, falling_pos(x, y, z, draws.1, draws.2))),
                None => None::<(usize, (u16, u16, i16))>,
            },
            old(self).frame_ent(final(self)),
            r is None ==> final(self).ent == old(self).ent,
            r matches Some(p) ==> final(self).ent@ == old(self).ent@.update(p.0 as int, falling_spec(
                old(self).ent@[p.0 as int],
                model,
                draws.0,
                old(self).sprite_stats@[if model == 7 { 322int } else { 323int }],
            )),
    {
        let i = match slot {
            Some(i) => i,
            None => return None,
        };
        let mut e = self.ent[i];
        e.class64 = 2;
        e.model65 = model;
        e.tick70 = if model == 7 { 20 } else { 21 };
        e.f56 = 1;
        e.f28 = 1;
        e.f71 = 0;
        e.f44 = 0xFF80;
        e.f126 = 0;
        e.max_life = draws.0 % 0x7D0 + 400;
        let jx = crate::mobs::jitter_of(draws.1);
        let jy = crate::mobs::jitter_of(draws.2);
        let pos = (x.wrapping_add(jx as u16), y.wrapping_add(jy as u16), z);
        e.act_life = e.max_life as i32;
        self.ent.set(i, e);
        self.set_sprite(i, if model == 7 { 322 } else { 323 });
        Some((i, pos))
    }
}

} // verus!
