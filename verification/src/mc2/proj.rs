//! The MC2 projectile column's target helpers: the victim class filter,
//! the target's (class, model) pair, and the wizard danger poke.

use vstd::prelude::*;
use crate::world::{Ent, Gen, MailTarget, PLAYER_TARGET};

verus! {

/// The danger-music countdown a poke re-arms.
pub const DANGER_TICKS: i32 = 100;

/// The victim filter of projectile `i`'s (class, model) bytes `(fc, fm)`
/// on a probe hit: class 0xFF admits anything; otherwise the class must
/// match and the model must match unless it is 0xFF. The human counts
/// as class 3, model 0.
pub open spec fn proj_filter_spec(g: Gen, fc: u8, fm: u8, hit: Option<MailTarget>) -> Option<MailTarget> {
    if fc == 0xFF {
        hit
    } else {
        match hit {
            Some(MailTarget::Pool(v)) => {
                let e = g.ent@[v as int];
                if e.class64 == fc && (fm == 0xFF || e.model65 == fm) { hit } else { None }
            },
            Some(MailTarget::Player) => {
                if fc == 3 && (fm == 0xFF || fm == 0) { hit } else { None }
            },
            None => None,
        }
    }
}

impl Gen {
    /// The class filter of projectile `i`'s victim probe: see
    /// [`proj_filter_spec`] over its `(f66, f67)` bytes.
    pub fn mc2_proj_filter(&self, i: usize, hit: Option<MailTarget>) -> (r: Option<MailTarget>)
        requires
            i < self.ent@.len(),
            hit matches Some(MailTarget::Pool(v)) ==> v < self.ent@.len(),
        ensures
            r == proj_filter_spec(*self, self.ent@[i as int].f66, self.ent@[i as int].f67, hit),
    {
        let fc = self.ent[i].f66;
        let fm = self.ent[i].f67;
        if fc == 0xFF {
            return hit;
        }
        match hit {
            Some(MailTarget::Pool(v)) => {
                let e = &self.ent[v];
                if e.class64 == fc && (fm == 0xFF || e.model65 == fm) { hit } else { None }
            },
            Some(MailTarget::Player) => {
                if fc == 3 && (fm == 0xFF || fm == 0) { hit } else { None }
            },
            None => None,
        }
    }

    /// The target's (class, model) pair: the player (and any slot outside
    /// the pool) is (3, 0).
    pub fn mc2_target_cm(&self, target: u16) -> (r: (u8, u8))
        ensures
            r == if target == PLAYER_TARGET || target as int >= self.ent@.len() {
                (3u8, 0u8)
            } else {
                (self.ent@[target as int].class64, self.ent@[target as int].model65)
            },
    {
        if target == PLAYER_TARGET || target as usize >= self.ent.len() {
            (3, 0)
        } else {
            let t = &self.ent[target as usize];
            (t.class64, t.model65)
        }
    }

    /// Poke the target wizard's danger timer: the player's re-arms to
    /// [`DANGER_TICKS`]; pool wizards keep none.
    pub fn mc2_danger_poke(&mut self, target: u16)
        ensures
            final(self).player_danger == if target == PLAYER_TARGET { DANGER_TICKS } else { old(self).player_danger },
            old(self).shape_eq(final(self)),
            final(self).castle_alert == old(self).castle_alert,
            final(self).player_aggro == old(self).player_aggro,
            final(self).player_invisible == old(self).player_invisible,
            final(self).kills == old(self).kills,
            final(self).mc2_wanted == old(self).mc2_wanted,
            final(self).ent == old(self).ent,
            final(self).t@ == old(self).t@,
            final(self).sounds == old(self).sounds,
    {
        if target == PLAYER_TARGET {
            self.player_danger = DANGER_TICKS;
        }
    }
}


/// The projectile flag the MC2 launchers set.
pub const F_MC2PROJ: u32 = 0x2000_0000;

/// A new (9, `model`) bolt in slot content `e`: action `model`, speed
/// 384 (actual and max), 50 mana, `life` (full), behavior row `row`, bit
/// 3 (targetable) clear and the projectile flag set, and sprite-param
/// row `sprite` with its extents `s`.
pub open spec fn bolt_spec(e: Ent, model: u8, life: u32, row: u8, sprite: u16, s: (u16, u16)) -> Ent {
    let e1 = Ent {
        class64: 9,
        model65: model,
        tick70: model,
        f126: 384,
        f_128: 384,
        f140: 50,
        max_life: life,
        act_life: life as i32,
        row156: row,
        flags: (e.flags & 0xFFFF_FFF7u32) | F_MC2PROJ,
        ..e
    };
    crate::mc2::mobs::mc2_sprite_ent(e1, sprite, s)
}

impl Gen {
    /// A (9, `model`) bolt into the allocated slot: see [`bolt_spec`].
    fn mc2_spawn_bolt_kind(&mut self, slot: Option<usize>, model: u8, life: u32, row: u8, sprite: u16) -> (r: Option<usize>)
        requires
            slot matches Some(i) ==> i < old(self).ent@.len(),
            crate::mc2::mobs::params_ok(*old(self), sprite as int),
            life < 0x8000_0000,
        ensures
            r == slot,
            old(self).frame_ent(final(self)),
            r is None ==> final(self).ent == old(self).ent,
            r matches Some(i) ==> final(self).ent@ == old(self).ent@.update(i as int, bolt_spec(
                old(self).ent@[i as int],
                model,
                life,
                row,
                sprite,
                crate::mc2::mobs::params_spec(*old(self), sprite as int),
            )),
    {
        let i = match slot {
            Some(i) => i,
            None => return None,
        };
        let mut e = self.ent[i];
        e.class64 = 9;
        e.model65 = model;
        e.tick70 = model;
        e.f126 = 384;
        e.f_128 = 384;
        e.f140 = 50;
        e.max_life = life;
        e.row156 = row;
        e.flags = (e.flags & 0xFFFF_FFF7) | F_MC2PROJ;
        e.act_life = life as i32;
        self.ent.set(i, e);
        self.mc2_set_sprite(i, sprite);
        Some(i)
    }

    /// Spawn the (9,0) bolt every creature ranged attack resolves into:
    /// action 0, 21 life, row 64, sprite 340 (see [`bolt_spec`]), into
    /// `slot`, the pool slot the engine's allocator handed out (`None`
    /// when the pool is full). Placing it in its map cell is the
    /// engine's, done on the slot returned.
    pub fn mc2_spawn_bolt(&mut self, slot: Option<usize>) -> (r: Option<usize>)
        requires
            slot matches Some(i) ==> i < old(self).ent@.len(),
            crate::mc2::mobs::params_ok(*old(self), 340),
        ensures
            r == slot,
            old(self).frame_ent(final(self)),
            r is None ==> final(self).ent == old(self).ent,
            r matches Some(i) ==> final(self).ent@ == old(self).ent@.update(i as int, bolt_spec(
                old(self).ent@[i as int], 0, 21, 64, 340, crate::mc2::mobs::params_spec(*old(self), 340))),
    {
        self.mc2_spawn_bolt_kind(slot, 0, 0x2000 / 384, 64, 340)
    }

    /// Spawn the (9,9) bolt: action 9, 9 life, row 63, sprite 216 (see
    /// [`bolt_spec`]), into `slot` as [`Gen::mc2_spawn_bolt`] does.
    pub fn mc2_spawn_bolt9(&mut self, slot: Option<usize>) -> (r: Option<usize>)
        requires
            slot matches Some(i) ==> i < old(self).ent@.len(),
            crate::mc2::mobs::params_ok(*old(self), 216),
        ensures
            r == slot,
            old(self).frame_ent(final(self)),
            r is None ==> final(self).ent == old(self).ent,
            r matches Some(i) ==> final(self).ent@ == old(self).ent@.update(i as int, bolt_spec(
                old(self).ent@[i as int], 9, 9, 63, 216, crate::mc2::mobs::params_spec(*old(self), 216))),
    {
        self.mc2_spawn_bolt_kind(slot, 9, 3584 / 384, 63, 216)
    }
}

} // verus!
