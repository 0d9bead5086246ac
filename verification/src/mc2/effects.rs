//! The MC2 water splash: a short frame animation with one sound.

use vstd::prelude::*;
use crate::world::{Ent, Gen, F_DEAD};

verus! {

/// The splash's sound.
pub const SPLASH_SOUND: u8 = 27;

/// The splash tick's entity: life counts down; below zero it despawns;
/// else the frame steps (saturating) and the sound latch (flags bit 1)
/// is set.
pub open spec fn splash_spec(e: Ent) -> Ent {
    let e1 = Ent { act_life: (e.act_life - 1) as i32, ..e };
    if e.act_life < 0 {
        Ent { flags: e.flags | F_DEAD, ..e1 }
    } else {
        Ent { frame88: if e.frame88 < 255 { (e.frame88 + 1) as u8 } else { 255 }, flags: e.flags | 2, ..e1 }
    }
}

/// Does the splash tick raise its sound (alive, latch still clear)?
pub open spec fn splash_sounds(e: Ent) -> bool {
    e.act_life >= 0 && e.flags & 2 == 0
}

impl Gen {
    /// The splash tick on entity `i`: see [`splash_spec`]; the sound is
    /// raised once, the tick the latch is set.
    pub fn mc2_splash_tick(&mut self, i: usize)
        requires
            old(self).wf(),
            i < old(self).ent@.len(),
            old(self).ent@[i as int].act_life > i32::MIN,
        ensures
            final(self).wf(),
            old(self).regs_eq(final(self)),
            final(self).t@ == old(self).t@,
            final(self).ent@ == old(self).ent@.update(i as int, splash_spec(old(self).ent@[i as int])),
            final(self).sounds@ == if splash_sounds(old(self).ent@[i as int]) {
                old(self).sounds@.push((SPLASH_SOUND, i as u16))
            } else {
                old(self).sounds@
            },
    {
        let mut e = self.ent[i];
        let life = e.act_life;
        e.act_life = life - 1;
        if life < 0 {
            e.flags = e.flags | 0x400;
            self.ent.set(i, e);
            return;
        }
        e.frame88 = e.frame88.saturating_add(1);
        let f = e.flags;
        let latch = f & 2 == 0;
        if latch {
            e.flags = f | 2;
        }
        self.ent.set(i, e);
        proof {
            assert(f & 2 != 0 ==> (f | 2u32) == f) by (bit_vector);
        }
        if latch {
            self.snd(SPLASH_SOUND, i);
        }
    }
}


/// The new smoke emitter of `model` (59 or 60) in slot content `e` at
/// (x, y, z): class 10 at action 0x40 (model 59) or 0x41, life 800..=899
/// from the first draw (full), bit 0 set and bit 3 (targetable) clear,
/// the particle-speed bonus 0..=16 from the second draw.
pub open spec fn smoke_emitter_spec(e: Ent, model: u8, x: u16, y: u16, z: i16, d1: u32, d2: u32) -> Ent {
    let life = (d1 % 100 + 800) as u32;
    Ent {
        class64: 10,
        model65: model,
        tick70: if model == 59 { 0x40u8 } else { 0x41u8 },
        max_life: life,
        act_life: life as i32,
        flags: (e.flags & 0xFFFF_FFF7u32) | 1,
        f126: (d2 % 17) as i16,
        x,
        y,
        z,
        ..e
    }
}

impl Gen {
    /// Spawn a smoke emitter (see [`smoke_emitter_spec`]) into `slot`,
    /// the pool slot the engine's allocator handed out (`None` when the
    /// pool is full), unless fewer than 32 pool slots are free (`free`,
    /// the engine's free count). `draws` are the two draws from the new
    /// entity's random stream. The emitter stays out of the map cells.
    pub fn mc2_spawn_smoke_emitter(&mut self, model: u8, x: u16, y: u16, z: i16, free: usize, slot: Option<usize>, draws: (u32, u32)) -> (r: Option<usize>)
        requires
            free >= 32 && slot is Some ==> slot->0 < old(self).ent@.len(),
        ensures
            r == if free >= 32 { slot } else { None },
            old(self).frame_ent(final(self)),
            r is None ==> final(self).ent == old(self).ent,
            r matches Some(i) ==> final(self).ent@ == old(self).ent@.update(i as int, smoke_emitter_spec(old(self).ent@[i as int], model, x, y, z, draws.0, draws.1)),
    {
        if free < 32 {
            return None;
        }
        let i = match slot {
            Some(i) => i,
            None => return None,
        };
        let mut e = self.ent[i];
        e.class64 = 10;
        e.model65 = model;
        e.tick70 = if model == 59 { 0x40 } else { 0x41 };
        e.max_life = draws.0 % 0x64 + 800;
        e.flags = (e.flags & 0xFFFF_FFF7) | 1;
        e.f126 = (draws.1 % 0x11) as i16;
        e.x = x;
        e.y = y;
        e.z = z;
        e.act_life = e.max_life as i32;
        self.ent.set(i, e);
        Some(i)
    }
}


/// A new smoke particle of `model` (13 or 14) in slot content `e`:
/// class 10, action `model`, `life` (full), max speed 30, a rise rate of
/// 51..=103 from the draw `d`, filter bytes 10 / `model`, flags with bit
/// 3 and bit 17 cleared then bit 17 set, and sprite-param row `sprite`
/// with its extents `s`.
pub open spec fn smoke_particle_spec(e: Ent, model: u8, life: u32, sprite: u16, d: u32, s: (u16, u16)) -> Ent {
    let e1 = Ent {
        class64: 10,
        model65: model,
        tick70: model,
        max_life: life,
        act_life: life as i32,
        f130: 30,
        f66: 10,
        f67: model,
        flags: (e.flags & 0xFFFD_FFF7u32) | 0x2_0000,
        f126: (d % 53 + 51) as i16,
        ..e
    };
    crate::mc2::mobs::mc2_sprite_ent(e1, sprite, s)
}

impl Gen {
    /// Spawn a smoke particle (see [`smoke_particle_spec`]) into `slot`,
    /// the pool slot the engine's allocator handed out (`None` when the
    /// pool is full); `d` is the draw from the new entity's random
    /// stream. Placing it in its map cell is the engine's, done on the
    /// slot returned.
    pub fn mc2_spawn_smoke_particle(&mut self, model: u8, life: u32, sprite: u16, slot: Option<usize>, d: u32) -> (r: Option<usize>)
        requires
            slot matches Some(i) ==> i < old(self).ent@.len(),
            crate::mc2::mobs::params_ok(*old(self), sprite as int),
        ensures
            r == slot,
            old(self).frame_ent(final(self)),
            r is None ==> final(self).ent == old(self).ent,
            r matches Some(i) ==> final(self).ent@ == old(self).ent@.update(i as int, smoke_particle_spec(
                old(self).ent@[i as int],
                model,
                life,
                sprite,
                d,
                crate::mc2::mobs::params_spec(*old(self), sprite as int),
            )),
    {
        let i = match slot {
            Some(i) => i,
            None => return None,
        };
        let mut e = self.ent[i];
        e.class64 = 10;
        e.model65 = model;
        e.tick70 = model;
        e.max_life = life;
        e.f130 = 30;
        e.f66 = 10;
        e.f67 = model;
        e.flags = (e.flags & 0xFFFD_FFF7) | 0x2_0000;
        e.f126 = (d % 0x35 + 51) as i16;
        self.ent.set(i, e);
        self.mc2_set_sprite(i, sprite);
        self.refill_life(i);
        Some(i)
    }
}

} // verus!
