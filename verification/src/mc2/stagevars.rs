//! The MC2 StageVar subsystem: the level's triggered-spawn hold gates.
//!
//! A level authors up to 11 StageVars; each names a creature template
//! that, when it spawns, is held (`tick70 = 8 * model + 7`, with the
//! kind in `site_z`) until the var's gate fires: proximity, a timer, a
//! referenced model going extinct, a bound entity dying, or a
//! disposition firing. On release the creature drops to its active
//! action `8 * model + 1`; a nonzero chain byte re-holds it on another
//! slot instead.

use vstd::prelude::*;
use vstd::wrapping::{u8_specs, u16_specs, i16_specs};
use crate::world::{Ent, Gen, Mc2Held, Mc2StageVar, World, F_DEAD};

verus! {

/// The StageVar state the subsystem reads and writes.
pub ghost struct SvState {
    pub ents: Seq<Ent>,
    pub vars: Seq<Mc2StageVar>,
    pub held: Seq<Mc2Held>,
}

impl World {
    pub open spec fn sv(&self) -> SvState {
        SvState { ents: self.g.ent@, vars: self.mc2_stagevars@, held: self.mc2_sv_held@ }
    }

    /// The world invariant: a well-formed simulation, at most the 11
    /// level slots, and every hold binding naming a pool entity and a
    /// slot.
    pub open spec fn wf(&self) -> bool {
        &&& self.g.wf()
        &&& self.mc2_stagevars@.len() <= 11
        &&& held_ok(self.mc2_sv_held@, self.g.ent@.len() as int, self.mc2_stagevars@.len() as int)
    }

    /// Only the StageVar state changed; the pool keeps its size and
    /// links and everything else is as it was.
    pub open spec fn sv_frame(&self, other: &World) -> bool {
        &&& self.g.regs_eq(&other.g)
        &&& other.g.t@ == self.g.t@
        &&& other.g.sounds == self.g.sounds
        &&& other.thing_models == self.thing_models
    }
}

/// Every binding names an entity below `n` and a slot below `m`.
pub open spec fn held_ok(held: Seq<Mc2Held>, n: int, m: int) -> bool {
    forall|k: int| 0 <= k < held.len() ==> (#[trigger] held[k]).ent < n && held[k].slot < m
}

/// The empty slot.
pub open spec fn empty_var_spec() -> Mc2StageVar {
    Mc2StageVar {
        kind: 0,
        flags: 0,
        chain: 0,
        cadence: 0,
        hold_word: 0,
        hold_subtype: 0,
        point: (0, 0),
        watch_template: 0,
        watch_model: 0,
        watch_ent: 0,
        param: 0,
    }
}

/// The model of template `idx`, or 0 when the table lacks it.
pub open spec fn table_model_spec(models: Seq<u8>, idx: int) -> u8 {
    if 0 <= idx < models.len() { models[idx] } else { 0 }
}

/// A watch kind (3, 4, 5, 8 or 9).
pub open spec fn watch_kind(k: u8) -> bool {
    k == 3 || k == 4 || k == 5 || k == 8 || k == 9
}

/// The live slot decoded from a level record `(index, stage, x, y,
/// data)`: the kind is the index's low nibble; its high bits remap to
/// the match/watch/cadence flags; the hold template is `x | y << 8`;
/// kinds 1 and 2 keep the low byte of each fly-point axis (shifted to
/// engine units); watch kinds with `&2` look up the watched model.
pub open spec fn decode_spec(v: (i8, i8, u8, u8, u32), models: Seq<u8>) -> Mc2StageVar {
    let byte0 = v.0 as u8;
    let kind = byte0 & 0xFu8;
    if kind == 0 {
        empty_var_spec()
    } else {
        let flags = (if byte0 & 0x80u8 != 0 { 1u8 } else { 0u8 }) | (if byte0 & 0x40u8 != 0 { 2u8 } else { 0u8 })
            | (if byte0 & 0x10u8 != 0 { 0x20u8 } else { 0u8 }) | (if byte0 & 0x20u8 != 0 { 0x40u8 } else { 0u8 });
        let hold_word = v.2 as int + 256 * v.3;
        let watch_template = v.4 % 0x10000;
        Mc2StageVar {
            kind,
            flags,
            chain: v.1 as u8,
            cadence: 0,
            hold_word: hold_word as u16,
            hold_subtype: table_model_spec(models, hold_word),
            point: if kind == 1 || kind == 2 {
                (((v.4 % 256) * 256) as u16, (((v.4 / 0x10000) % 256) * 256) as u16)
            } else {
                (0u16, 0u16)
            },
            watch_template: watch_template as u16,
            watch_model: if watch_kind(kind) && flags & 2u8 != 0 { table_model_spec(models, watch_template as int) } else { 0 },
            watch_ent: 0,
            param: watch_template as u16,
        }
    }
}

/// The remap of a record's high bits, bit by bit.
proof fn lemma_flag_remap(b: u8)
    by (bit_vector)
    ensures
        (((if b & 0x80u8 != 0 { 1u8 } else { 0u8 }) | (if b & 0x40u8 != 0 { 2u8 } else { 0u8 }) | (if b & 0x10u8 != 0 { 0x20u8 } else { 0u8 }) | (if b & 0x20u8 != 0 { 0x40u8 } else { 0u8 })) & 1u8 != 0) == (b & 0x80u8 != 0),
        (((if b & 0x80u8 != 0 { 1u8 } else { 0u8 }) | (if b & 0x40u8 != 0 { 2u8 } else { 0u8 }) | (if b & 0x10u8 != 0 { 0x20u8 } else { 0u8 }) | (if b & 0x20u8 != 0 { 0x40u8 } else { 0u8 })) & 2u8 != 0) == (b & 0x40u8 != 0),
        (((if b & 0x80u8 != 0 { 1u8 } else { 0u8 }) | (if b & 0x40u8 != 0 { 2u8 } else { 0u8 }) | (if b & 0x10u8 != 0 { 0x20u8 } else { 0u8 }) | (if b & 0x20u8 != 0 { 0x40u8 } else { 0u8 })) & 0x20u8 != 0) == (b & 0x10u8 != 0),
        (((if b & 0x80u8 != 0 { 1u8 } else { 0u8 }) | (if b & 0x40u8 != 0 { 2u8 } else { 0u8 }) | (if b & 0x10u8 != 0 { 0x20u8 } else { 0u8 }) | (if b & 0x20u8 != 0 { 0x40u8 } else { 0u8 })) & 0x40u8 != 0) == (b & 0x20u8 != 0),
        ((if b & 0x80u8 != 0 { 1u8 } else { 0u8 }) | (if b & 0x40u8 != 0 { 2u8 } else { 0u8 }) | (if b & 0x10u8 != 0 { 0x20u8 } else { 0u8 }) | (if b & 0x20u8 != 0 { 0x40u8 } else { 0u8 })) & 0x9Cu8 == 0,
{
}

/// A live record's flags take its high bits one for one: bit 0x80
/// (match by subtype) gives 1, 0x40 (watch a model) gives 2, 0x10 (hold
/// except every fourth arm) gives 0x20 and 0x20 (release every other
/// arm) gives 0x40; no other flag is set, and the kind is the low nibble.
/// The hold template is `x + 256 y`, the chain the stage byte, the watch
/// template and parameter the low 16 bits of the data word; kinds 1 and 2
/// fly to its low byte and its third byte, in tiles; the slot starts
/// with no cadence and no bound entity.
pub proof fn decode_flag_bits(v: (i8, i8, u8, u8, u32), models: Seq<u8>)
    requires
        (v.0 as u8) & 0xFu8 != 0,
    ensures
        ({
            let r = decode_spec(v, models);
            let b = v.0 as u8;
            &&& (r.flags & 1u8 != 0) <==> (b & 0x80u8 != 0)
            &&& (r.flags & 2u8 != 0) <==> (b & 0x40u8 != 0)
            &&& (r.flags & 0x20u8 != 0) <==> (b & 0x10u8 != 0)
            &&& (r.flags & 0x40u8 != 0) <==> (b & 0x20u8 != 0)
            &&& r.flags & 0x9Cu8 == 0
            &&& r.kind == b & 0xFu8
            &&& r.hold_word as int == v.2 as int + 256 * v.3 as int
            &&& r.hold_subtype == (if (r.hold_word as int) < models.len() { models[r.hold_word as int] } else { 0u8 })
            &&& r.chain == v.1 as u8
            &&& r.watch_template as int == v.4 as int % 0x1_0000
            &&& r.param == r.watch_template
            &&& r.cadence == 0 && r.watch_ent == 0
            &&& (r.kind == 1 || r.kind == 2) ==> r.point.0 as int == (v.4 as int % 0x100) * 0x100
                && r.point.1 as int == (v.4 as int / 0x1_0000 % 0x100) * 0x100
            &&& !(r.kind == 1 || r.kind == 2) ==> r.point == (0u16, 0u16)
        }),
{
    lemma_flag_remap(v.0 as u8);
}

/// The highest record index in `1..k` with a nonzero kind, searching
/// down from `k - 1` (record 0 is never counted: slot 0 is unused).
pub open spec fn last_live(recs: Seq<(i8, i8, u8, u8, u32)>, k: int) -> Option<int>
    decreases k,
{
    if k <= 1 {
        None
    } else if (recs[k - 1].0 as u8) & 0xFu8 != 0 {
        Some(k - 1)
    } else {
        last_live(recs, k - 1)
    }
}

/// The number of arms of `v` that will still release at once (the
/// cadence's "skip this cycle" marks) before one holds.
pub open spec fn skips_left(v: Mc2StageVar) -> nat {
    let c = v.cadence % 4;
    let mode = v.flags & 0x60u8;
    if mode == 0x20 {
        if c == 3 { 1 } else { 0 }
    } else if mode == 0x40 {
        if c % 2 == 1 { 1 } else { 0 }
    } else if mode == 0x60 {
        if c != 0 { (4 - c) as nat } else { 0 }
    } else {
        0
    }
}

/// The pending skips of all slots.
pub open spec fn total_skips(vars: Seq<Mc2StageVar>) -> nat
    decreases vars.len(),
{
    if vars.len() == 0 { 0 } else { total_skips(vars.drop_last()) + skips_left(vars.last()) }
}

/// Does the arm of `v` (before its cadence advance) release at once?
pub open spec fn arm_skips(v: Mc2StageVar) -> bool {
    let c = v.cadence & 3u8;
    let mode = v.flags & 0x60u8;
    if mode == 0x20 {
        c == 3
    } else if mode == 0x40 {
        c & 1u8 != 0
    } else if mode == 0x60 {
        c & 3u8 != 0
    } else {
        false
    }
}

/// The bindings of `held` other than entity `ent`, in order.
pub open spec fn drop_ent(held: Seq<Mc2Held>, ent: u16) -> Seq<Mc2Held>
    decreases held.len(),
{
    if held.len() == 0 {
        held
    } else {
        let rest = drop_ent(held.drop_last(), ent);
        if held.last().ent == ent { rest } else { rest.push(held.last()) }
    }
}

/// `8 * model + k` in byte arithmetic.
pub open spec fn phase_action(model: u8, k: u8) -> u8 {
    u8_specs::wrapping_add(u8_specs::wrapping_mul(model, 8), k)
}

/// Arm a matched spawn `ent` on `slot`: advance the cadence; a skipped
/// cycle releases at once, otherwise the creature is held (kind-6 slots
/// start its countdown from the param).
pub open spec fn arm_spec(s: SvState, ent: int, slot: int) -> SvState
    decreases total_skips(s.vars), 1int,
{
    if !(0 <= slot < s.vars.len()) || !(0 <= ent < s.ents.len()) {
        s
    } else {
        let v = s.vars[slot];
        let v2 = Mc2StageVar { cadence: u8_specs::wrapping_add(v.cadence, 1), ..v };
        let vars2 = s.vars.update(slot, v2);
        if arm_skips(v) {
            proof {
                lemma_arm_skip_decreases(s.vars, slot);
            }
            release_spec(SvState { vars: vars2, ..s }, ent, slot, false)
        } else {
            let e = s.ents[ent];
            let timer = if v.kind == 6 { v.param as i16 } else { 0i16 };
            SvState {
                ents: s.ents.update(ent, Ent { tick70: phase_action(e.model65, 7), site_z: v.kind as i16, ..e }),
                vars: vars2,
                held: drop_ent(s.held, ent as u16).push(Mc2Held { ent: ent as u16, slot: slot as u8, timer }),
            }
        }
    }
}

/// Release held creature `ent` from `slot`: a nonzero in-range chain
/// re-arms it there (unless this release comes through a chain);
/// otherwise it goes active and its binding is dropped.
pub open spec fn release_spec(s: SvState, ent: int, slot: int, via_chain: bool) -> SvState
    decreases total_skips(s.vars), 2int,
{
    let chain = if 0 <= slot < s.vars.len() { s.vars[slot].chain } else { 0u8 };
    if chain != 0 && !via_chain && (chain as int) < s.vars.len() {
        arm_spec(s, ent, chain as int)
    } else if 0 <= ent < s.ents.len() {
        let e = s.ents[ent];
        SvState {
            ents: s.ents.update(ent, Ent { site_z: 0, tick70: phase_action(e.model65, 1), ..e }),
            held: drop_ent(s.held, ent as u16),
            ..s
        }
    } else {
        SvState { held: drop_ent(s.held, ent as u16), ..s }
    }
}

/// One arm that skips takes one pending skip off its slot.
pub proof fn lemma_arm_skip_decreases(vars: Seq<Mc2StageVar>, slot: int)
    requires
        0 <= slot < vars.len(),
        arm_skips(vars[slot]),
    ensures
        total_skips(vars.update(slot, Mc2StageVar { cadence: u8_specs::wrapping_add(vars[slot].cadence, 1), ..vars[slot] }))
            < total_skips(vars),
{
    let v = vars[slot];
    let v2 = Mc2StageVar { cadence: u8_specs::wrapping_add(v.cadence, 1), ..v };
    let c = v.cadence;
    assert((c & 3u8) as int == c % 4 && (c & 3u8) & 1u8 == (c & 1u8) && (c & 3u8) & 3u8 == (c & 3u8)
        && (c & 1u8) as int == (c % 4) % 2) by (bit_vector);
    let c2 = u8_specs::wrapping_add(c, 1);
    assert(c2 % 4 == (c % 4 + 1) % 4) by {
        if c == 255 {
            assert(c2 == 0);
        } else {
            assert(c2 == c + 1);
        }
    }
    let m = v.flags & 0x60u8;
    let c4 = c % 4;
    assert(v2.flags & 0x60u8 == m);
    assert(v2.cadence == c2);
    if m == 0x20 {
        assert((c & 3u8) == 3);
        assert(c4 == 3);
        assert(c2 % 4 == 0);
        assert(skips_left(v) == 1);
        assert(skips_left(v2) == 0);
    } else if m == 0x40 {
        assert((c & 1u8) != 0);
        assert(c4 % 2 == 1);
        assert((c2 % 4) % 2 == 0);
        assert(skips_left(v) == 1);
        assert(skips_left(v2) == 0);
    } else if m == 0x60 {
        assert(c4 != 0);
        assert(skips_left(v) == 4 - c4);
        if c4 == 3 {
            assert(skips_left(v2) == 0);
        } else {
            assert(skips_left(v2) == 4 - (c4 + 1));
        }
    }
    assert(skips_left(v2) + 1 == skips_left(v));
    lemma_total_update(vars, slot, v2);
}

/// Replacing one slot changes the total by the difference of its skips.
pub proof fn lemma_total_update(vars: Seq<Mc2StageVar>, k: int, v2: Mc2StageVar)
    requires
        0 <= k < vars.len(),
    ensures
        total_skips(vars.update(k, v2)) + skips_left(vars[k]) == total_skips(vars) + skips_left(v2),
    decreases vars.len(),
{
    let u = vars.update(k, v2);
    if k == vars.len() - 1 {
        assert(u.drop_last() =~= vars.drop_last());
    } else {
        assert(u.drop_last() =~= vars.drop_last().update(k, v2));
        lemma_total_update(vars.drop_last(), k, v2);
    }
}

/// The first slot at or after `k` holding template `idx` by index.
pub open spec fn first_by_index(vars: Seq<Mc2StageVar>, idx: int, k: int) -> Option<int>
    decreases vars.len() - k,
{
    if k >= vars.len() || k < 0 {
        None
    } else if vars[k].kind != 0 && vars[k].flags & 1u8 == 0 && vars[k].hold_word == idx {
        Some(k)
    } else {
        first_by_index(vars, idx, k + 1)
    }
}

/// The first slot at or after `k` holding model `model` by subtype.
pub open spec fn first_by_model(vars: Seq<Mc2StageVar>, model: u8, k: int) -> Option<int>
    decreases vars.len() - k,
{
    if k >= vars.len() || k < 0 {
        None
    } else if vars[k].kind != 0 && vars[k].flags & 1u8 != 0 && vars[k].hold_subtype == model {
        Some(k)
    } else {
        first_by_model(vars, model, k + 1)
    }
}

/// Bind a death watch of a slot keyed to template `idx` to entity
/// `ent`, un-firing it.
pub open spec fn bind_watch(v: Mc2StageVar, ent: int, idx: int) -> Mc2StageVar {
    if watch_kind(v.kind) && v.flags & 2u8 == 0 && v.watch_template == idx {
        Mc2StageVar { watch_ent: ent as u16, flags: v.flags & 0xFBu8, ..v }
    } else {
        v
    }
}

/// The spawn attach of entity `ent` from template `idx`: the first
/// slot holding it by index, else by subtype, arms it; then every
/// death watch keyed to the template binds it.
pub open spec fn attach_spec(s: SvState, ent: int, idx: int) -> SvState {
    if s.vars.len() == 0 {
        s
    } else {
        let model = s.ents[ent].model65;
        let hit = match first_by_index(s.vars, idx, 0) {
            Some(k) => Some(k),
            None => first_by_model(s.vars, model, 0),
        };
        let s1 = match hit {
            Some(k) => arm_spec(s, ent, k),
            None => s,
        };
        SvState { vars: Seq::new(s1.vars.len(), |k: int| bind_watch(s1.vars[k], ent, idx)), ..s1 }
    }
}

/// The load's retroactive attach over pool slots `k..n`: each live
/// class-5 creature with a template attaches.
pub open spec fn retro_spec(s: SvState, k: int, n: int) -> SvState
    decreases n - k,
{
    if k >= n || k < 0 {
        s
    } else {
        let e = s.ents[k];
        let s1 = if e.class64 == 5 && e.thing_slot != 0 { attach_spec(s, k, e.thing_slot as int) } else { s };
        retro_spec(s1, k + 1, n)
    }
}

/// The disposition arm: kind-7 slots with id `dis` get `|= 0x18`.
pub open spec fn arm_dis_var(v: Mc2StageVar, dis: u16) -> Mc2StageVar {
    if v.kind == 7 && v.param == dis { Mc2StageVar { flags: v.flags | 0x18u8, ..v } } else { v }
}

/// The watcher re-arm: fired model-watch slots un-fire.
pub open spec fn rearm_var(v: Mc2StageVar) -> Mc2StageVar {
    if watch_kind(v.kind) && v.flags & 4u8 != 0 && v.flags & 2u8 != 0 {
        Mc2StageVar { flags: v.flags & 0xFBu8, ..v }
    } else {
        v
    }
}

/// The referenced model has no live class-5 instance (corpse and
/// multipart phases and despawning slots do not count).
pub open spec fn extinct_spec(ents: Seq<Ent>, model: u8) -> bool {
    forall|j: int| 1 <= j < ents.len() ==> !live_of(#[trigger] ents[j], model)
}

pub open spec fn live_of(e: Ent, model: u8) -> bool {
    &&& e.class64 == 5
    &&& e.model65 == model
    &&& e.act_life >= 0
    &&& !(e.tick70 == 0xB4 || e.tick70 == 0xE8 || e.tick70 == 0xEA)
    &&& e.flags & F_DEAD == 0
}

/// A bound slot reads dead or being removed (or out of the pool).
pub open spec fn dead_spec(ents: Seq<Ent>, slot: u16) -> bool {
    slot >= ents.len() || ents[slot as int].class64 == 0 || ents[slot as int].act_life < 0
        || ents[slot as int].flags & F_DEAD != 0
}

/// The global scan's update of slot `v`: a watch kind latches fired
/// when its model is extinct or its bound entity died; a kind-7 arm
/// decays one bit (0x10 first, then 0x08).
pub open spec fn scan_var(v: Mc2StageVar, ents: Seq<Ent>) -> Mc2StageVar {
    if watch_kind(v.kind) {
        if v.flags & 4u8 != 0 {
            v
        } else {
            let fired = if v.flags & 2u8 != 0 {
                extinct_spec(ents, v.watch_model)
            } else {
                v.watch_ent != 0 && dead_spec(ents, v.watch_ent)
            };
            if fired { Mc2StageVar { flags: v.flags | 4u8, ..v } } else { v }
        }
    } else if v.kind == 7 {
        let f = v.flags;
        if f & 0x18u8 != 0 {
            Mc2StageVar { flags: if f & 0x10u8 != 0 { f & 0xEFu8 } else { f & 0xF7u8 }, ..v }
        } else {
            v
        }
    } else {
        v
    }
}

/// `|a - b|` on the wrapped 16-bit difference.
pub open spec fn abs16_spec(a: u16, b: u16) -> int {
    let d = u16_specs::wrapping_sub(a, b) as i16;
    if d < 0 { -d } else { d as int }
}

/// The first binding of entity `ent`.
pub open spec fn find_binding(held: Seq<Mc2Held>, ent: u16, k: int) -> Option<int>
    decreases held.len() - k,
{
    if k >= held.len() || k < 0 {
        None
    } else if held[k].ent == ent {
        Some(k)
    } else {
        find_binding(held, ent, k + 1)
    }
}

/// A snapshot binding `h` no longer held: its entity is gone, not a
/// class-5 creature, not held, despawning, or dead.
pub open spec fn stale(ents: Seq<Ent>, h: Mc2Held) -> bool {
    h.ent >= ents.len() || ents[h.ent as int].class64 != 5 || ents[h.ent as int].site_z == 0
        || ents[h.ent as int].flags & F_DEAD != 0 || ents[h.ent as int].act_life < 0
}

/// The per-entity reaction to snapshot binding `h`: stale bindings are
/// pruned; creatures in phases 4/5 wait; otherwise the slot's gate
/// decides the release (kind 1: within 2048 of the fly-point on both
/// axes; 3: fired; 4/5/8/9: fired, or for an unfired entity-watch of
/// kind 9 with a fly-point, within 3072; 6: the countdown in the
/// binding runs out; 7: an armed disposition, which also re-arms the
/// model watchers).
pub open spec fn react_spec(s: SvState, h: Mc2Held) -> SvState {
    let ent = h.ent as int;
    if stale(s.ents, h) {
        SvState { held: drop_ent(s.held, h.ent), ..s }
    } else {
        let e = s.ents[ent];
        let v = s.vars[h.slot as int];
        let phase = e.tick70 & 7u8;
        if 4 <= phase <= 5 {
            s
        } else {
            let (ex, ey) = (e.x, e.y);
            let (s1, release) = if v.kind == 1 {
                (s, abs16_spec(v.point.0, ex) <= 2048 && abs16_spec(v.point.1, ey) <= 2048)
            } else if v.kind == 3 {
                (s, v.flags & 4u8 != 0)
            } else if v.kind == 4 || v.kind == 5 || v.kind == 8 || v.kind == 9 {
                (s, if v.flags & 4u8 != 0 {
                    true
                } else if v.flags & 2u8 == 0 && v.kind == 9 && (v.point.0 != 0 || v.point.1 != 0) {
                    abs16_spec(v.point.0, ex) <= 3072 && abs16_spec(v.point.1, ey) <= 3072
                } else {
                    false
                })
            } else if v.kind == 6 {
                match find_binding(s.held, h.ent, 0) {
                    Some(b) => {
                        let t = i16_specs::wrapping_sub(s.held[b].timer, 1);
                        (SvState { held: s.held.update(b, Mc2Held { timer: t, ..s.held[b] }), ..s }, t <= 0)
                    },
                    None => (s, true),
                }
            } else if v.kind == 7 {
                if v.flags & 0x18u8 != 0 {
                    (SvState { vars: Seq::new(s.vars.len(), |k: int| rearm_var(s.vars[k])), ..s }, true)
                } else {
                    (s, false)
                }
            } else {
                (s, false)
            };
            if release { release_spec(s1, ent, h.slot as int, false) } else { s1 }
        }
    }
}

/// The reactions to the snapshot bindings `snap[0..k]`, in order.
pub open spec fn react_all(s: SvState, snap: Seq<Mc2Held>, k: int) -> SvState
    decreases k,
{
    if k <= 0 || k > snap.len() {
        s
    } else {
        react_spec(react_all(s, snap, k - 1), snap[k - 1])
    }
}

/// The StageVar tick: the global scan over slots 1.., then the
/// reactions to a snapshot of the bindings.
pub open spec fn tick_spec(s: SvState) -> SvState {
    if s.vars.len() == 0 {
        s
    } else {
        let scanned = SvState {
            vars: Seq::new(s.vars.len(), |k: int| if k >= 1 { scan_var(s.vars[k], s.ents) } else { s.vars[k] }),
            ..s
        };
        react_all(scanned, s.held, s.held.len() as int)
    }
}

/// Dropping an entity's bindings keeps the others valid.
pub proof fn lemma_drop_ent_ok(held: Seq<Mc2Held>, ent: u16, n: int, m: int)
    requires
        held_ok(held, n, m),
    ensures
        held_ok(drop_ent(held, ent), n, m),
        drop_ent(held, ent).len() <= held.len(),
    decreases held.len(),
{
    if held.len() > 0 {
        lemma_drop_ent_ok(held.drop_last(), ent, n, m);
        let rest = drop_ent(held.drop_last(), ent);
        if held.last().ent != ent {
            assert forall|k: int| 0 <= k < rest.push(held.last()).len() implies (#[trigger] rest.push(held.last())[k]).ent < n
                && rest.push(held.last())[k].slot < m by {
                if k < rest.len() {
                    assert(rest.push(held.last())[k] == rest[k]);
                }
            }
        }
    }
}

/// After [`drop_ent`], no binding names `ent`.
pub proof fn lemma_drop_ent_gone(held: Seq<Mc2Held>, ent: u16)
    ensures
        forall|k: int| 0 <= k < drop_ent(held, ent).len() ==> (#[trigger] drop_ent(held, ent)[k]).ent != ent,
    decreases held.len(),
{
    if held.len() > 0 {
        lemma_drop_ent_gone(held.drop_last(), ent);
        let rest = drop_ent(held.drop_last(), ent);
        if held.last().ent != ent {
            assert forall|k: int| 0 <= k < rest.push(held.last()).len() implies (#[trigger] rest.push(held.last())[k]).ent != ent by {
                if k < rest.len() {
                    assert(rest.push(held.last())[k] == rest[k]);
                }
            }
        }
    }
}

/// Dropping an entity's bindings twice is dropping them once.
pub proof fn lemma_drop_ent_idem(held: Seq<Mc2Held>, ent: u16)
    ensures
        drop_ent(drop_ent(held, ent), ent) == drop_ent(held, ent),
    decreases held.len(),
{
    if held.len() > 0 {
        let rest = drop_ent(held.drop_last(), ent);
        lemma_drop_ent_idem(held.drop_last(), ent);
        if held.last().ent != ent {
            assert(rest.push(held.last()).drop_last() =~= rest);
        }
    }
}

/// A release that takes no further chain step makes the creature
/// active (action `8 * model + 1`, `site_z` cleared) and leaves no
/// binding of it; the slots are untouched.
pub proof fn release_makes_active(s: SvState, ent: int, slot: int)
    requires
        0 <= ent < s.ents.len(),
        ent < 65536,
    ensures
        ({
            let r = release_spec(s, ent, slot, true);
            let e = s.ents[ent];
            &&& r.ents == s.ents.update(ent, Ent { site_z: 0, tick70: phase_action(e.model65, 1), ..e })
            &&& r.vars == s.vars
            &&& forall|k: int| 0 <= k < r.held.len() ==> (#[trigger] r.held[k]).ent != ent
        }),
{
    lemma_drop_ent_gone(s.held, ent as u16);
}

/// Arming a creature on a slot whose cadence does not skip this cycle
/// holds it: action `8 * model + 7` with the slot's kind in `site_z`,
/// and its one binding is the last, on that slot.
pub proof fn arm_holds(s: SvState, ent: int, slot: int)
    requires
        0 <= ent < s.ents.len(),
        ent < 65536,
        0 <= slot < s.vars.len(),
        slot < 256,
        !arm_skips(s.vars[slot]),
    ensures
        ({
            let r = arm_spec(s, ent, slot);
            let e = s.ents[ent];
            let v = s.vars[slot];
            &&& r.ents == s.ents.update(ent, Ent { tick70: phase_action(e.model65, 7), site_z: v.kind as i16, ..e })
            &&& r.held.len() >= 1
            &&& r.held.last() == (Mc2Held { ent: ent as u16, slot: slot as u8, timer: if v.kind == 6 { v.param as i16 } else { 0i16 } })
            &&& forall|k: int| 0 <= k < r.held.len() - 1 ==> (#[trigger] r.held[k]).ent != ent
        }),
{
    lemma_drop_ent_gone(s.held, ent as u16);
    let r = arm_spec(s, ent, slot);
    let d = drop_ent(s.held, ent as u16);
    assert forall|k: int| 0 <= k < r.held.len() - 1 implies (#[trigger] r.held[k]).ent != ent by {
        assert(r.held[k] == d[k]);
    }
}

/// Holding a creature and then releasing it through a chain step undoes
/// the hold: the pool and the bindings end exactly as a direct release
/// leaves them; only the slot's cadence has advanced.
pub proof fn hold_then_release(s: SvState, ent: int, slot: int)
    requires
        0 <= ent < s.ents.len(),
        ent < 65536,
        0 <= slot < s.vars.len(),
        slot < 256,
        !arm_skips(s.vars[slot]),
    ensures
        ({
            let a = arm_spec(s, ent, slot);
            let r = release_spec(a, ent, slot, true);
            let d = release_spec(s, ent, slot, true);
            &&& r.ents == d.ents
            &&& r.held == d.held
            &&& r.vars == a.vars
        }),
{
    let a = arm_spec(s, ent, slot);
    let dh = drop_ent(s.held, ent as u16);
    let x = a.held.last();
    assert(a.held == dh.push(x));
    assert(a.held.drop_last() =~= dh);
    assert(drop_ent(a.held, ent as u16) == drop_ent(dh, ent as u16));
    lemma_drop_ent_idem(s.held, ent as u16);
    let r = release_spec(a, ent, slot, true);
    let d = release_spec(s, ent, slot, true);
    assert(r.ents =~= d.ents);
}

/// `b` has the kind and param of `a`, and for a disposition (kind 7)
/// slot its flags too.
pub open spec fn same_gate(a: Mc2StageVar, b: Mc2StageVar) -> bool {
    &&& b.kind == a.kind
    &&& b.param == a.param
    &&& a.kind == 7 ==> b.flags == a.flags
}

/// Slot by slot, `w` matches `v` as [`same_gate`] says.
pub open spec fn gates_kept(v: Seq<Mc2StageVar>, w: Seq<Mc2StageVar>) -> bool {
    &&& w.len() == v.len()
    &&& forall|k: int| 0 <= k < v.len() ==> same_gate(#[trigger] v[k], w[k])
}

/// Arming keeps every slot's gate.
pub proof fn lemma_arm_keeps_gates(s: SvState, ent: int, slot: int)
    ensures
        gates_kept(s.vars, arm_spec(s, ent, slot).vars),
    decreases total_skips(s.vars), 1int,
{
    if 0 <= slot < s.vars.len() && 0 <= ent < s.ents.len() {
        let v = s.vars[slot];
        let v2 = Mc2StageVar { cadence: u8_specs::wrapping_add(v.cadence, 1), ..v };
        let vars2 = s.vars.update(slot, v2);
        assert(gates_kept(s.vars, vars2));
        if arm_skips(v) {
            lemma_arm_skip_decreases(s.vars, slot);
            let s2 = SvState { vars: vars2, ..s };
            lemma_release_keeps_gates(s2, ent, slot, false);
            let w = release_spec(s2, ent, slot, false).vars;
            assert forall|k: int| 0 <= k < s.vars.len() implies same_gate(#[trigger] s.vars[k], w[k]) by {
                assert(same_gate(s.vars[k], vars2[k]));
                assert(same_gate(vars2[k], w[k]));
            }
        }
    }
}

/// Releasing keeps every slot's gate.
pub proof fn lemma_release_keeps_gates(s: SvState, ent: int, slot: int, via_chain: bool)
    ensures
        gates_kept(s.vars, release_spec(s, ent, slot, via_chain).vars),
    decreases total_skips(s.vars), 2int,
{
    let chain = if 0 <= slot < s.vars.len() { s.vars[slot].chain } else { 0u8 };
    if chain != 0 && !via_chain && (chain as int) < s.vars.len() {
        lemma_arm_keeps_gates(s, ent, chain as int);
    }
}

/// One reaction keeps every slot's gate.
pub proof fn lemma_react_keeps_gates(s: SvState, h: Mc2Held)
    requires
        0 <= h.slot < s.vars.len(),
    ensures
        gates_kept(s.vars, react_spec(s, h).vars),
{
    let ent = h.ent as int;
    if !stale(s.ents, h) {
        let e = s.ents[ent];
        let v = s.vars[h.slot as int];
        let phase = e.tick70 & 7u8;
        if !(4 <= phase <= 5) {
            let rearmed = SvState { vars: Seq::new(s.vars.len(), |k: int| rearm_var(s.vars[k])), ..s };
            assert(gates_kept(s.vars, rearmed.vars));
            let s1 = if v.kind == 7 && v.flags & 0x18u8 != 0 {
                rearmed
            } else if v.kind == 6 {
                match find_binding(s.held, h.ent, 0) {
                    Some(b) => SvState { held: s.held.update(b, Mc2Held { timer: i16_specs::wrapping_sub(s.held[b].timer, 1), ..s.held[b] }), ..s },
                    None => s,
                }
            } else {
                s
            };
            assert(gates_kept(s.vars, s1.vars));
            lemma_release_keeps_gates(s1, ent, h.slot as int, false);
            let w = release_spec(s1, ent, h.slot as int, false).vars;
            assert forall|k: int| 0 <= k < s.vars.len() implies same_gate(#[trigger] s.vars[k], w[k]) by {
                assert(same_gate(s.vars[k], s1.vars[k]));
                assert(same_gate(s1.vars[k], w[k]));
            }
        }
    }
}

/// The reactions keep every slot's gate.
pub proof fn lemma_react_all_keeps_gates(s: SvState, snap: Seq<Mc2Held>, k: int)
    requires
        forall|j: int| 0 <= j < snap.len() ==> (#[trigger] snap[j]).slot < s.vars.len(),
    ensures
        gates_kept(s.vars, react_all(s, snap, k).vars),
    decreases k,
{
    if 0 < k <= snap.len() {
        lemma_react_all_keeps_gates(s, snap, k - 1);
        let prev = react_all(s, snap, k - 1);
        lemma_react_keeps_gates(prev, snap[k - 1]);
        let w = react_all(s, snap, k).vars;
        assert forall|j: int| 0 <= j < s.vars.len() implies same_gate(#[trigger] s.vars[j], w[j]) by {
            assert(same_gate(s.vars[j], prev.vars[j]));
            assert(same_gate(prev.vars[j], w[j]));
        }
    }
}

/// A disposition slot's arm decays one bit per tick, 0x10 first, then
/// 0x08 (a two-tick window), whatever the reactions do; its kind and
/// param stay.
pub proof fn disposition_arm_decays(s: SvState, k: int)
    requires
        held_ok(s.held, s.ents.len() as int, s.vars.len() as int),
        1 <= k < s.vars.len(),
        s.vars[k].kind == 7,
    ensures
        ({
            let f = s.vars[k].flags;
            let v2 = tick_spec(s).vars[k];
            &&& v2.kind == 7
            &&& v2.param == s.vars[k].param
            &&& v2.flags == if f & 0x10u8 != 0 { f & 0xEFu8 } else if f & 0x08u8 != 0 { f & 0xF7u8 } else { f }
        }),
{
    let f = s.vars[k].flags;
    assert((f & 0x18u8 != 0) == (f & 0x10u8 != 0 || f & 0x08u8 != 0)) by (bit_vector);
    let scanned = SvState {
        vars: Seq::new(s.vars.len(), |j: int| if j >= 1 { scan_var(s.vars[j], s.ents) } else { s.vars[j] }),
        ..s
    };
    assert forall|j: int| 0 <= j < s.held.len() implies (#[trigger] s.held[j]).slot < scanned.vars.len() by {
    }
    lemma_react_all_keeps_gates(scanned, s.held, s.held.len() as int);
    assert(same_gate(scanned.vars[k], tick_spec(s).vars[k]));
}

/// What [`last_live`] finds: the highest live record index in `1..k`,
/// or none when every record there has kind 0.
pub proof fn lemma_last_live(recs: Seq<(i8, i8, u8, u8, u32)>, k: int)
    requires
        k <= recs.len(),
    ensures
        match last_live(recs, k) {
            Some(c) => 1 <= c < k && (recs[c].0 as u8) & 0xFu8 != 0
                && forall|j: int| c < j < k ==> (#[trigger] recs[j].0 as u8) & 0xFu8 == 0,
            None => forall|j: int| 1 <= j < k ==> (#[trigger] recs[j].0 as u8) & 0xFu8 == 0,
        },
    decreases k,
{
    if k > 1 {
        lemma_last_live(recs, k - 1);
    }
}

/// The retroactive attach keeps every slot's gate.
pub proof fn lemma_retro_keeps_gates(s: SvState, k: int, n: int)
    requires
        n <= s.ents.len(),
        s.ents.len() <= 65536,
    ensures
        gates_kept(s.vars, retro_spec(s, k, n).vars),
    decreases n - k,
{
    if 0 <= k < n {
        let e = s.ents[k];
        let s1 = if e.class64 == 5 && e.thing_slot != 0 { attach_spec(s, k, e.thing_slot as int) } else { s };
        if e.class64 == 5 && e.thing_slot != 0 && s.vars.len() != 0 {
            let model = s.ents[k].model65;
            let idx = e.thing_slot as int;
            let hit = match first_by_index(s.vars, idx, 0) {
                Some(q) => Some(q),
                None => first_by_model(s.vars, model, 0),
            };
            let s0 = match hit {
                Some(q) => arm_spec(s, k, q),
                None => s,
            };
            match hit {
                Some(q) => lemma_arm_keeps_gates(s, k, q),
                None => {},
            }
            assert(gates_kept(s.vars, s0.vars));
            assert(gates_kept(s.vars, s1.vars)) by {
                assert forall|j: int| 0 <= j < s.vars.len() implies same_gate(#[trigger] s.vars[j], s1.vars[j]) by {
                    assert(same_gate(s.vars[j], s0.vars[j]));
                }
            }
        }
        lemma_arm_ents_len(s, k, n);
        lemma_retro_keeps_gates(s1, k + 1, n);
        let w = retro_spec(s1, k + 1, n).vars;
        assert forall|j: int| 0 <= j < s.vars.len() implies same_gate(#[trigger] s.vars[j], w[j]) by {
            assert(same_gate(s.vars[j], s1.vars[j]));
            assert(same_gate(s1.vars[j], w[j]));
        }
    }
}

/// One attach step of the retroactive walk keeps the pool's size.
proof fn lemma_arm_ents_len(s: SvState, k: int, n: int)
    requires
        0 <= k < n <= s.ents.len(),
        s.ents.len() <= 65536,
    ensures
        ({
            let e = s.ents[k];
            let s1 = if e.class64 == 5 && e.thing_slot != 0 { attach_spec(s, k, e.thing_slot as int) } else { s };
            s1.ents.len() == s.ents.len()
        }),
{
    let e = s.ents[k];
    if e.class64 == 5 && e.thing_slot != 0 && s.vars.len() != 0 {
        let idx = e.thing_slot as int;
        let hit = match first_by_index(s.vars, idx, 0) {
            Some(q) => Some(q),
            None => first_by_model(s.vars, s.ents[k].model65, 0),
        };
        match hit {
            Some(q) => lemma_arm_frame(s, k, q),
            None => {},
        }
    }
}

/// Arming entity `ent` changes no other entity, keeps the pool's size
/// and every entity's class and template, and either leaves the
/// bindings alone or drops those of `ent`, adding at most one binding
/// of `ent` at the end.
pub proof fn lemma_arm_frame(s: SvState, ent: int, slot: int)
    requires
        0 <= ent < s.ents.len(),
        ent < 65536,
    ensures
        ({
            let r = arm_spec(s, ent, slot);
            &&& r.ents.len() == s.ents.len()
            &&& forall|j: int| 0 <= j < s.ents.len() && j != ent ==> #[trigger] r.ents[j] == s.ents[j]
            &&& r.ents[ent].class64 == s.ents[ent].class64
            &&& r.ents[ent].thing_slot == s.ents[ent].thing_slot
            &&& (r.held == s.held || r.held == drop_ent(s.held, ent as u16) || (r.held.len() >= 1
                && r.held.drop_last() == drop_ent(s.held, ent as u16) && r.held.last().ent == ent))
        }),
    decreases total_skips(s.vars), 1int,
{
    if 0 <= slot < s.vars.len() {
        let v = s.vars[slot];
        let v2 = Mc2StageVar { cadence: u8_specs::wrapping_add(v.cadence, 1), ..v };
        let vars2 = s.vars.update(slot, v2);
        if arm_skips(v) {
            lemma_arm_skip_decreases(s.vars, slot);
            lemma_release_frame(SvState { vars: vars2, ..s }, ent, slot, false);
        } else {
            let r = arm_spec(s, ent, slot);
            assert(r.held.drop_last() =~= drop_ent(s.held, ent as u16));
        }
    }
}

/// Releasing entity `ent`: the frame of [`lemma_arm_frame`].
pub proof fn lemma_release_frame(s: SvState, ent: int, slot: int, via_chain: bool)
    requires
        0 <= ent < s.ents.len(),
        ent < 65536,
    ensures
        ({
            let r = release_spec(s, ent, slot, via_chain);
            &&& r.ents.len() == s.ents.len()
            &&& forall|j: int| 0 <= j < s.ents.len() && j != ent ==> #[trigger] r.ents[j] == s.ents[j]
            &&& r.ents[ent].class64 == s.ents[ent].class64
            &&& r.ents[ent].thing_slot == s.ents[ent].thing_slot
            &&& (r.held == s.held || r.held == drop_ent(s.held, ent as u16) || (r.held.len() >= 1
                && r.held.drop_last() == drop_ent(s.held, ent as u16) && r.held.last().ent == ent))
        }),
    decreases total_skips(s.vars), 2int,
{
    let chain = if 0 <= slot < s.vars.len() { s.vars[slot].chain } else { 0u8 };
    if chain != 0 && !via_chain && (chain as int) < s.vars.len() {
        lemma_arm_frame(s, ent, chain as int);
    }
}

/// The bindings name creatures below `lo` (slot 1 up) with a template,
/// each at most once.
pub open spec fn binds_ok(held: Seq<Mc2Held>, ents: Seq<Ent>, lo: int) -> bool {
    &&& forall|i: int| 0 <= i < held.len() ==> 1 <= (#[trigger] held[i]).ent < lo
        && ents[held[i].ent as int].class64 == 5 && ents[held[i].ent as int].thing_slot != 0
    &&& forall|i: int, j: int| 0 <= i < j < held.len() ==> (#[trigger] held[i]).ent != (#[trigger] held[j]).ent
}

/// Every binding kept by [`drop_ent`] is one of the originals, and
/// dropping keeps bindings distinct by entity.
proof fn lemma_drop_ent_sub(held: Seq<Mc2Held>, e: u16)
    ensures
        forall|i: int| 0 <= i < drop_ent(held, e).len() ==> exists|j: int| 0 <= j < held.len() && held[j] == #[trigger] drop_ent(held, e)[i],
        (forall|i: int, j: int| 0 <= i < j < held.len() ==> (#[trigger] held[i]).ent != (#[trigger] held[j]).ent)
            ==> (forall|i: int, j: int| 0 <= i < j < drop_ent(held, e).len() ==> (#[trigger] drop_ent(held, e)[i]).ent != (#[trigger] drop_ent(held, e)[j]).ent),
    decreases held.len(),
{
    if held.len() > 0 {
        let h = held.drop_last();
        lemma_drop_ent_sub(h, e);
        let d = drop_ent(h, e);
        assert forall|i: int| 0 <= i < d.len() implies exists|j: int| 0 <= j < held.len() && held[j] == #[trigger] d[i] by {
            let j = choose|j: int| 0 <= j < h.len() && h[j] == d[i];
            assert(held[j] == h[j]);
        }
        if held.last().ent != e {
            let d2 = d.push(held.last());
            assert forall|i: int| 0 <= i < d2.len() implies exists|j: int| 0 <= j < held.len() && held[j] == #[trigger] d2[i] by {
                if i < d.len() {
                    assert(d2[i] == d[i]);
                } else {
                    assert(held[held.len() - 1] == d2[i]);
                }
            }
            if forall|i: int, j: int| 0 <= i < j < held.len() ==> (#[trigger] held[i]).ent != (#[trigger] held[j]).ent {
                assert forall|i: int, j: int| 0 <= i < j < h.len() implies (#[trigger] h[i]).ent != (#[trigger] h[j]).ent by {
                    assert(h[i] == held[i] && h[j] == held[j]);
                }
                assert forall|i: int, j: int| 0 <= i < j < d2.len() implies (#[trigger] d2[i]).ent != (#[trigger] d2[j]).ent by {
                    if j < d.len() {
                        assert(d2[i] == d[i] && d2[j] == d[j]);
                    } else {
                        assert(d2[i] == d[i]);
                        let m = choose|m: int| 0 <= m < h.len() && h[m] == d[i];
                        assert(held[m] == h[m]);
                        assert(held[m].ent != held[held.len() - 1].ent);
                    }
                }
            }
        } else {
            if forall|i: int, j: int| 0 <= i < j < held.len() ==> (#[trigger] held[i]).ent != (#[trigger] held[j]).ent {
                assert forall|i: int, j: int| 0 <= i < j < h.len() implies (#[trigger] h[i]).ent != (#[trigger] h[j]).ent by {
                    assert(h[i] == held[i] && h[j] == held[j]);
                }
            }
        }
    }
}

/// The retroactive attach from slot `k` keeps [`binds_ok`] (moving its
/// bound up to the pool's end) and every entity's class and template.
proof fn lemma_retro_binds(s: SvState, k: int, n: int)
    requires
        1 <= k <= n,
        n == s.ents.len(),
        n <= 65536,
        binds_ok(s.held, s.ents, k),
    ensures
        ({
            let r = retro_spec(s, k, n);
            &&& r.ents.len() == n
            &&& binds_ok(r.held, r.ents, n)
            &&& forall|j: int| 0 <= j < n ==> (#[trigger] r.ents[j]).class64 == s.ents[j].class64
                && r.ents[j].thing_slot == s.ents[j].thing_slot
        }),
    decreases n - k,
{
    if k < n {
        let e = s.ents[k];
        let s1 = if e.class64 == 5 && e.thing_slot != 0 { attach_spec(s, k, e.thing_slot as int) } else { s };
        if e.class64 == 5 && e.thing_slot != 0 && s.vars.len() != 0 {
            let idx = e.thing_slot as int;
            let hit = match first_by_index(s.vars, idx, 0) {
                Some(q) => Some(q),
                None => first_by_model(s.vars, s.ents[k].model65, 0),
            };
            match hit {
                Some(q) => {
                    lemma_arm_frame(s, k, q);
                    lemma_drop_ent_sub(s.held, k as u16);
                    lemma_drop_ent_gone(s.held, k as u16);
                    let r = arm_spec(s, k, q);
                    assert(s1.held == r.held && s1.ents == r.ents);
                    let d = drop_ent(s.held, k as u16);
                    assert forall|i: int| 0 <= i < d.len() implies 1 <= (#[trigger] d[i]).ent < k + 1
                        && r.ents[d[i].ent as int].class64 == 5 && r.ents[d[i].ent as int].thing_slot != 0 by {
                        let j = choose|j: int| 0 <= j < s.held.len() && s.held[j] == d[i];
                        assert(1 <= s.held[j].ent < k);
                    }
                    if r.held == s.held {
                        assert forall|i: int| 0 <= i < r.held.len() implies 1 <= (#[trigger] r.held[i]).ent < k + 1
                            && r.ents[r.held[i].ent as int].class64 == 5 && r.ents[r.held[i].ent as int].thing_slot != 0 by {
                            assert(1 <= s.held[i].ent < k);
                        }
                    } else if r.held == d {
                    } else {
                        assert forall|i: int| 0 <= i < r.held.len() implies 1 <= (#[trigger] r.held[i]).ent < k + 1
                            && r.ents[r.held[i].ent as int].class64 == 5 && r.ents[r.held[i].ent as int].thing_slot != 0 by {
                            if i < d.len() {
                                assert(r.held[i] == r.held.drop_last()[i]);
                            }
                        }
                        assert forall|i: int, j: int| 0 <= i < j < r.held.len() implies (#[trigger] r.held[i]).ent != (#[trigger] r.held[j]).ent by {
                            assert(r.held[i] == r.held.drop_last()[i]);
                            if j < d.len() {
                                assert(r.held[j] == r.held.drop_last()[j]);
                            }
                        }
                    }
                },
                None => {},
            }
        }
        assert(binds_ok(s1.held, s1.ents, k + 1));
        lemma_retro_binds(s1, k + 1, n);
    }
}

/// Loading leaves only bindings that the retroactive attach made: each
/// names a pool creature (slot 1 up, class 5, with a template) and no
/// creature is bound twice; no binding from before the load survives.
pub proof fn load_binds_each_creature_once(s: SvState)
    requires
        s.held.len() == 0,
        1 <= s.ents.len() <= 65536,
    ensures
        ({
            let r = retro_spec(s, 1, s.ents.len() as int);
            &&& forall|i: int| 0 <= i < r.held.len() ==> 1 <= (#[trigger] r.held[i]).ent < r.ents.len()
                && r.ents[r.held[i].ent as int].class64 == 5 && r.ents[r.held[i].ent as int].thing_slot != 0
            &&& forall|i: int, j: int| 0 <= i < j < r.held.len() ==> (#[trigger] r.held[i]).ent != (#[trigger] r.held[j]).ent
        }),
{
    lemma_retro_binds(s, 1, s.ents.len() as int);
}

/// The loaded table has one slot per record up to the highest live one
/// in slots 1..=10 (a later record is ignored), and each slot keeps its
/// record's kind and param through the retroactive attach; slot 0 is
/// empty. With no live record in 1..=10 nothing loads.
pub proof fn load_table_shape(s: SvState, recs: Seq<(i8, i8, u8, u8, u32)>, models: Seq<u8>)
    requires
        s.held.len() == 0,
        1 <= s.ents.len() <= 65536,
    ensures
        ({
            let lim = if recs.len() < 11 { recs.len() as int } else { 11 };
            match last_live(recs, lim) {
                None => forall|j: int| 1 <= j < lim ==> (#[trigger] recs[j].0 as u8) & 0xFu8 == 0,
                Some(c) => {
                    let r = retro_spec(SvState { vars: Seq::new((c + 1) as nat, |k: int| load_slot(recs, k, models)), ..s }, 1, s.ents.len() as int);
                    &&& 1 <= c < lim
                    &&& forall|j: int| c < j < lim ==> (#[trigger] recs[j].0 as u8) & 0xFu8 == 0
                    &&& r.vars.len() == c + 1
                    &&& r.vars[0].kind == 0
                    &&& forall|k: int| 1 <= k <= c ==> (#[trigger] r.vars[k]).kind == decode_spec(recs[k], models).kind
                        && r.vars[k].param == decode_spec(recs[k], models).param
                },
            }
        }),
{
    let lim = if recs.len() < 11 { recs.len() as int } else { 11 };
    lemma_last_live(recs, lim);
    match last_live(recs, lim) {
        None => {},
        Some(c) => {
            let s0 = SvState { vars: Seq::new((c + 1) as nat, |k: int| load_slot(recs, k, models)), ..s };
            lemma_retro_keeps_gates(s0, 1, s.ents.len() as int);
            let r = retro_spec(s0, 1, s.ents.len() as int);
            assert(same_gate(s0.vars[0], r.vars[0]));
            assert forall|k: int| 1 <= k <= c implies (#[trigger] r.vars[k]).kind == decode_spec(recs[k], models).kind
                && r.vars[k].param == decode_spec(recs[k], models).param by {
                assert(same_gate(s0.vars[k], r.vars[k]));
            }
        },
    }
}

/// `b` matches spawns as `a` does: the same kind, param, hold template
/// and model, and the same match-by-model and cadence-mode bits.
pub open spec fn same_match(a: Mc2StageVar, b: Mc2StageVar) -> bool {
    &&& b.kind == a.kind
    &&& b.param == a.param
    &&& b.hold_word == a.hold_word
    &&& b.hold_subtype == a.hold_subtype
    &&& b.flags & 0x61u8 == a.flags & 0x61u8
}

/// Slot by slot, `w` matches `v` as [`same_match`] says.
pub open spec fn matches_kept(v: Seq<Mc2StageVar>, w: Seq<Mc2StageVar>) -> bool {
    &&& w.len() == v.len()
    &&& forall|k: int| 0 <= k < v.len() ==> same_match(#[trigger] v[k], w[k])
}

proof fn lemma_same_match_trans(a: Mc2StageVar, b: Mc2StageVar, c: Mc2StageVar)
    requires
        same_match(a, b),
        same_match(b, c),
    ensures
        same_match(a, c),
{
}

/// Arming keeps how every slot matches spawns.
proof fn lemma_arm_keeps_match(s: SvState, ent: int, slot: int)
    ensures
        matches_kept(s.vars, arm_spec(s, ent, slot).vars),
    decreases total_skips(s.vars), 1int,
{
    if 0 <= slot < s.vars.len() && 0 <= ent < s.ents.len() {
        let v = s.vars[slot];
        let v2 = Mc2StageVar { cadence: u8_specs::wrapping_add(v.cadence, 1), ..v };
        let vars2 = s.vars.update(slot, v2);
        assert(matches_kept(s.vars, vars2));
        if arm_skips(v) {
            lemma_arm_skip_decreases(s.vars, slot);
            let s2 = SvState { vars: vars2, ..s };
            lemma_release_keeps_match(s2, ent, slot, false);
            let w = release_spec(s2, ent, slot, false).vars;
            assert forall|k: int| 0 <= k < s.vars.len() implies same_match(#[trigger] s.vars[k], w[k]) by {
                lemma_same_match_trans(s.vars[k], vars2[k], w[k]);
            }
        }
    }
}

/// Releasing keeps how every slot matches spawns.
proof fn lemma_release_keeps_match(s: SvState, ent: int, slot: int, via_chain: bool)
    ensures
        matches_kept(s.vars, release_spec(s, ent, slot, via_chain).vars),
    decreases total_skips(s.vars), 2int,
{
    let chain = if 0 <= slot < s.vars.len() { s.vars[slot].chain } else { 0u8 };
    if chain != 0 && !via_chain && (chain as int) < s.vars.len() {
        lemma_arm_keeps_match(s, ent, chain as int);
    }
}

/// Binding a death watch keeps how a slot matches spawns.
proof fn lemma_bind_watch_keeps_match(v: Mc2StageVar, ent: int, idx: int)
    ensures
        same_match(v, bind_watch(v, ent, idx)),
{
    let f = v.flags;
    assert((f & 0xFBu8) & 0x61u8 == f & 0x61u8) by (bit_vector);
}

/// Slots that match spawns alike find the same first index holder.
proof fn lemma_first_by_index_kept(v: Seq<Mc2StageVar>, w: Seq<Mc2StageVar>, idx: int, k: int)
    requires
        matches_kept(v, w),
    ensures
        first_by_index(w, idx, k) == first_by_index(v, idx, k),
    decreases v.len() - k,
{
    if 0 <= k < v.len() {
        let a = v[k];
        let b = w[k];
        assert(same_match(a, b));
        let fa = a.flags;
        let fb = b.flags;
        assert(fa & 0x61u8 == fb & 0x61u8 ==> (fa & 1u8 == 0) == (fb & 1u8 == 0)) by (bit_vector);
        lemma_first_by_index_kept(v, w, idx, k + 1);
    }
}

/// A binding of another entity survives dropping `ent`'s.
proof fn lemma_drop_ent_keeps(held: Seq<Mc2Held>, ent: u16, x: Mc2Held)
    requires
        held.contains(x),
        x.ent != ent,
    ensures
        drop_ent(held, ent).contains(x),
    decreases held.len(),
{
    let h = held.drop_last();
    if held.last() == x {
        assert(drop_ent(held, ent) == drop_ent(h, ent).push(x));
        assert(drop_ent(held, ent)[drop_ent(h, ent).len() as int] == x);
    } else {
        let i = choose|i: int| 0 <= i < held.len() && held[i] == x;
        assert(i < held.len() - 1);
        assert(h[i] == x);
        lemma_drop_ent_keeps(h, ent, x);
        let d = drop_ent(h, ent);
        let m = choose|m: int| 0 <= m < d.len() && d[m] == x;
        if held.last().ent != ent {
            assert(drop_ent(held, ent)[m] == x);
        }
    }
}

/// The hold the load gives entity `e` (held on `q` by the vars `v`).
pub open spec fn load_hold(e: int, q: int, v: Mc2StageVar) -> Mc2Held {
    Mc2Held { ent: e as u16, slot: q as u8, timer: if v.kind == 6 { v.param as i16 } else { 0i16 } }
}

/// The retroactive attach from `k`, followed for one creature `e`:
/// before its turn it is untouched and unbound and the slots still match
/// spawns as `v0` does; from its turn on it is held on `q`.
proof fn lemma_retro_one(s: SvState, k: int, n: int, e: int, e0: Ent, v0: Seq<Mc2StageVar>, q: int)
    requires
        1 <= k <= n,
        n == s.ents.len(),
        n <= 65536,
        1 <= e < n,
        e0.class64 == 5,
        e0.thing_slot != 0,
        first_by_index(v0, e0.thing_slot as int, 0) == Some(q),
        0 <= q < v0.len() <= 256,
        v0[q].flags & 0x60u8 == 0,
        k <= e ==> s.ents[e] == e0 && matches_kept(v0, s.vars) && forall|i: int| 0 <= i < s.held.len() ==> (#[trigger] s.held[i]).ent != e,
        k > e ==> s.ents[e] == (Ent { tick70: phase_action(e0.model65, 7), site_z: v0[q].kind as i16, ..e0 })
            && s.held.contains(load_hold(e, q, v0[q])),
    ensures
        ({
            let r = retro_spec(s, k, n);
            &&& r.ents[e] == (Ent { tick70: phase_action(e0.model65, 7), site_z: v0[q].kind as i16, ..e0 })
            &&& r.held.contains(load_hold(e, q, v0[q]))
        }),
    decreases n - k,
{
    if k < n {
        let ek = s.ents[k];
        let idx = ek.thing_slot as int;
        let s1 = if ek.class64 == 5 && ek.thing_slot != 0 { attach_spec(s, k, idx) } else { s };
        let x = load_hold(e, q, v0[q]);
        if ek.class64 == 5 && ek.thing_slot != 0 && s.vars.len() != 0 {
            let hit = match first_by_index(s.vars, idx, 0) {
                Some(p) => Some(p),
                None => first_by_model(s.vars, s.ents[k].model65, 0),
            };
            let s0 = match hit {
                Some(p) => arm_spec(s, k, p),
                None => s,
            };
            match hit {
                Some(p) => {
                    lemma_arm_frame(s, k, p);
                    lemma_drop_ent_sub(s.held, k as u16);
                    lemma_arm_keeps_match(s, k, p);
                },
                None => {},
            }
            assert(s1.ents == s0.ents && s1.held == s0.held);
            assert(matches_kept(s0.vars, s1.vars)) by {
                assert forall|j: int| 0 <= j < s0.vars.len() implies same_match(#[trigger] s0.vars[j], s1.vars[j]) by {
                    lemma_bind_watch_keeps_match(s0.vars[j], k, idx);
                }
            }
            if k < e {
                assert forall|j: int| 0 <= j < v0.len() implies same_match(#[trigger] v0[j], s1.vars[j]) by {
                    lemma_same_match_trans(v0[j], s.vars[j], s0.vars[j]);
                    lemma_same_match_trans(v0[j], s0.vars[j], s1.vars[j]);
                }
                assert forall|i: int| 0 <= i < s1.held.len() implies (#[trigger] s1.held[i]).ent != e by {
                    let d = drop_ent(s.held, k as u16);
                    if s1.held != s.held && s1.held != d {
                        if i < d.len() {
                            assert(s1.held[i] == s1.held.drop_last()[i]);
                            let m = choose|m: int| 0 <= m < s.held.len() && s.held[m] == d[i];
                        }
                    } else if s1.held == d {
                        let m = choose|m: int| 0 <= m < s.held.len() && s.held[m] == d[i];
                    }
                }
            } else if k == e {
                lemma_first_by_index_kept(v0, s.vars, idx, 0);
                assert(hit == Some(q));
                let v = s.vars[q];
                assert(same_match(v0[q], v));
                let fv = v.flags;
                let f0 = v0[q].flags;
                assert(f0 & 0x61u8 == fv & 0x61u8 && f0 & 0x60u8 == 0 ==> fv & 0x60u8 == 0) by (bit_vector);
                assert(!arm_skips(v));
                arm_holds(s, k, q);
                assert(s0.held.last() == x);
                assert(s1.held[s1.held.len() - 1] == x);
            } else {
                assert(s.held.contains(x));
                if s1.held == drop_ent(s.held, k as u16) {
                    lemma_drop_ent_keeps(s.held, k as u16, x);
                } else if s1.held != s.held {
                    lemma_drop_ent_keeps(s.held, k as u16, x);
                    let d = drop_ent(s.held, k as u16);
                    let m = choose|m: int| 0 <= m < d.len() && d[m] == x;
                    assert(s1.held.drop_last()[m] == x);
                    assert(s1.held[m] == x);
                }
            }
        } else {
            assert(k != e || !(ek.class64 == 5 && ek.thing_slot != 0) || s.vars.len() == 0);
            if k == e {
                assert(s.vars.len() == v0.len());
                assert(false);
            }
        }
        lemma_retro_one(s1, k + 1, n, e, e0, v0, q);
    }
}

/// A pool creature whose template some slot holds by index, on a slot
/// whose cadence never skips, ends the load held there: in its phase-7
/// wait with the slot's kind in `site_z`, and bound exactly once, on
/// that slot (with the kind-6 countdown from the param).
pub proof fn load_holds_matched_creature(s: SvState, e: int, q: int)
    requires
        s.held.len() == 0,
        1 <= s.ents.len() <= 65536,
        s.vars.len() <= 256,
        1 <= e < s.ents.len(),
        s.ents[e].class64 == 5,
        s.ents[e].thing_slot != 0,
        first_by_index(s.vars, s.ents[e].thing_slot as int, 0) == Some(q),
        s.vars[q].flags & 0x60u8 == 0,
    ensures
        ({
            let r = retro_spec(s, 1, s.ents.len() as int);
            let e0 = s.ents[e];
            let v = s.vars[q];
            &&& r.ents[e] == (Ent { tick70: phase_action(e0.model65, 7), site_z: v.kind as i16, ..e0 })
            &&& r.held.contains(load_hold(e, q, v))
            &&& forall|i: int| 0 <= i < r.held.len() && (#[trigger] r.held[i]).ent == e ==> r.held[i] == load_hold(e, q, v)
        }),
{
    lemma_first_by_index_range(s.vars, s.ents[e].thing_slot as int, 0);
    let n = s.ents.len() as int;
    lemma_retro_one(s, 1, n, e, s.ents[e], s.vars, q);
    lemma_retro_binds(s, 1, n);
    let r = retro_spec(s, 1, n);
    let x = load_hold(e, q, s.vars[q]);
    let i0 = choose|i: int| 0 <= i < r.held.len() && r.held[i] == x;
    assert forall|i: int| 0 <= i < r.held.len() && (#[trigger] r.held[i]).ent == e implies r.held[i] == x by {
        if i < i0 {
            assert(r.held[i].ent != r.held[i0].ent);
        } else if i > i0 {
            assert(r.held[i0].ent != r.held[i].ent);
        }
    }
}

/// The first index holder lies at or after `k` and inside the table.
proof fn lemma_first_by_index_range(v: Seq<Mc2StageVar>, idx: int, k: int)
    ensures
        first_by_index(v, idx, k) matches Some(q) ==> k <= q < v.len() && v[q].kind != 0,
    decreases v.len() - k,
{
    if 0 <= k < v.len() {
        lemma_first_by_index_range(v, idx, k + 1);
    }
}

impl World {
    /// The model of authored template `idx`, if the table has it.
    pub fn mc2_table_model(&self, idx: usize) -> (r: Option<u8>)
        ensures
            r == if idx < self.thing_models@.len() { Some(self.thing_models@[idx as int]) } else { None::<u8> },
    {
        if idx < self.thing_models.len() {
            Some(self.thing_models[idx])
        } else {
            None
        }
    }

    /// The model of template `idx`, 0 when the table lacks it.
    fn table_model_or0(&self, idx: usize) -> (r: u8)
        ensures
            r == table_model_spec(self.thing_models@, idx as int),
    {
        match self.mc2_table_model(idx) {
            Some(m) => m,
            None => 0,
        }
    }

    /// Drop every binding of entity `ent`, keeping the order of the rest.
    fn held_drop(&mut self, ent: u16)
        requires
            old(self).wf(),
        ensures
            final(self).wf(),
            final(self).mc2_sv_held@ == drop_ent(old(self).mc2_sv_held@, ent),
            final(self).g == old(self).g,
            final(self).mc2_stagevars == old(self).mc2_stagevars,
            final(self).thing_models == old(self).thing_models,
    {
        let ghost held = self.mc2_sv_held@;
        let mut out: Vec<Mc2Held> = Vec::new();
        let n = self.mc2_sv_held.len();
        let mut k: usize = 0;
        while k < n
            invariant
                n == held.len(),
                held == self.mc2_sv_held@,
                k <= n,
                out@ == drop_ent(held.take(k as int), ent),
            decreases n - k,
        {
            let h = self.mc2_sv_held[k];
            proof {
                assert(held.take(k + 1).drop_last() =~= held.take(k as int));
                assert(held.take(k + 1).last() == h);
            }
            if h.ent != ent {
                out.push(h);
            }
            k += 1;
        }
        proof {
            assert(held.take(n as int) =~= held);
            lemma_drop_ent_ok(held, ent, self.g.ent@.len() as int, self.mc2_stagevars@.len() as int);
        }
        self.mc2_sv_held = out;
    }

    /// Arm a matched spawn: see [`arm_spec`].
    pub fn mc2_stagevar_arm(&mut self, ent: usize, slot: u8)
        requires
            old(self).wf(),
            ent < old(self).g.ent@.len(),
            (slot as int) < old(self).mc2_stagevars@.len(),
        ensures
            final(self).wf(),
            old(self).sv_frame(final(self)),
            final(self).sv() == arm_spec(old(self).sv(), ent as int, slot as int),
            final(self).mc2_stagevars@.len() == old(self).mc2_stagevars@.len(),
        decreases total_skips(old(self).mc2_stagevars@), 1int,
    {
        let ghost s0 = self.sv();
        let mut v = self.mc2_stagevars[slot as usize];
        let c = v.cadence & 3;
        let mode = v.flags & 0x60;
        v.cadence = v.cadence.wrapping_add(1);
        self.mc2_stagevars.set(slot as usize, v);
        let skip = if mode == 0x20 {
            c == 3
        } else if mode == 0x40 {
            c & 1 != 0
        } else if mode == 0x60 {
            c & 3 != 0
        } else {
            false
        };
        assert(skip == arm_skips(s0.vars[slot as int]));
        if skip {
            proof {
                lemma_arm_skip_decreases(s0.vars, slot as int);
            }
            self.mc2_stagevar_release(ent, slot, false);
            return;
        }
        let mut e = self.g.ent[ent];
        let kind = v.kind;
        let timer: i16 = if kind == 6 { v.param as i16 } else { 0 };
        e.tick70 = e.model65.wrapping_mul(8).wrapping_add(7);
        e.site_z = kind as i16;
        self.g.ent.set(ent, e);
        self.held_drop(ent as u16);
        self.mc2_sv_held.push(Mc2Held { ent: ent as u16, slot, timer });
    }

    /// Release held creature `ent` from `slot`: see [`release_spec`].
    pub fn mc2_stagevar_release(&mut self, ent: usize, slot: u8, via_chain: bool)
        requires
            old(self).wf(),
            ent < old(self).g.ent@.len(),
        ensures
            final(self).wf(),
            old(self).sv_frame(final(self)),
            final(self).sv() == release_spec(old(self).sv(), ent as int, slot as int, via_chain),
            final(self).mc2_stagevars@.len() == old(self).mc2_stagevars@.len(),
        decreases total_skips(old(self).mc2_stagevars@), 2int,
    {
        let chain: u8 = if (slot as usize) < self.mc2_stagevars.len() {
            self.mc2_stagevars[slot as usize].chain
        } else {
            0
        };
        if chain != 0 && !via_chain && (chain as usize) < self.mc2_stagevars.len() {
            self.mc2_stagevar_arm(ent, chain);
            return;
        }
        let mut e = self.g.ent[ent];
        e.site_z = 0;
        e.tick70 = e.model65.wrapping_mul(8).wrapping_add(1);
        self.g.ent.set(ent, e);
        self.held_drop(ent as u16);
    }

    /// The first slot holding template `idx` by index.
    fn first_by_index_exec(&self, idx: usize) -> (r: Option<usize>)
        requires
            self.wf(),
        ensures
            r is None <==> first_by_index(self.mc2_stagevars@, idx as int, 0) is None,
            r matches Some(k) ==> first_by_index(self.mc2_stagevars@, idx as int, 0) == Some(k as int) && k < self.mc2_stagevars@.len(),
    {
        let n = self.mc2_stagevars.len();
        let mut k: usize = 0;
        while k < n
            invariant
                n == self.mc2_stagevars@.len(),
                k <= n,
                first_by_index(self.mc2_stagevars@, idx as int, 0) == first_by_index(self.mc2_stagevars@, idx as int, k as int),
            decreases n - k,
        {
            let v = self.mc2_stagevars[k];
            if v.kind != 0 && v.flags & 1 == 0 && v.hold_word as usize == idx {
                return Some(k);
            }
            k += 1;
        }
        None
    }

    /// The first slot holding model `model` by subtype.
    fn first_by_model_exec(&self, model: u8) -> (r: Option<usize>)
        requires
            self.wf(),
        ensures
            r is None <==> first_by_model(self.mc2_stagevars@, model, 0) is None,
            r matches Some(k) ==> first_by_model(self.mc2_stagevars@, model, 0) == Some(k as int) && k < self.mc2_stagevars@.len(),
    {
        let n = self.mc2_stagevars.len();
        let mut k: usize = 0;
        while k < n
            invariant
                n == self.mc2_stagevars@.len(),
                k <= n,
                first_by_model(self.mc2_stagevars@, model, 0) == first_by_model(self.mc2_stagevars@, model, k as int),
            decreases n - k,
        {
            let v = self.mc2_stagevars[k];
            if v.kind != 0 && v.flags & 1 != 0 && v.hold_subtype == model {
                return Some(k);
            }
            k += 1;
        }
        None
    }

    /// The spawn attach of entity `ent` from template `thing_idx`: see
    /// [`attach_spec`].
    pub fn mc2_stagevar_attach(&mut self, ent: usize, thing_idx: usize)
        requires
            old(self).wf(),
            ent < old(self).g.ent@.len(),
        ensures
            final(self).wf(),
            old(self).sv_frame(final(self)),
            final(self).sv() == attach_spec(old(self).sv(), ent as int, thing_idx as int),
    {
        if self.mc2_stagevars.len() == 0 {
            return;
        }
        let model = self.g.ent[ent].model65;
        let hit = match self.first_by_index_exec(thing_idx) {
            Some(k) => Some(k),
            None => self.first_by_model_exec(model),
        };
        if let Some(slot) = hit {
            self.mc2_stagevar_arm(ent, slot as u8);
        }
        let ghost s1 = self.sv();
        let n = self.mc2_stagevars.len();
        let mut k: usize = 0;
        while k < n
            invariant
                self.wf(),
                n == self.mc2_stagevars@.len(),
                n == s1.vars.len(),
                k <= n,
                ent < self.g.ent@.len(),
                old(self).sv_frame(self),
                self.g.ent@ == s1.ents,
                self.mc2_sv_held@ == s1.held,
                forall|j: int| 0 <= j < n ==> #[trigger] self.mc2_stagevars@[j] == if j < k { bind_watch(s1.vars[j], ent as int, thing_idx as int) } else { s1.vars[j] },
            decreases n - k,
        {
            let mut v = self.mc2_stagevars[k];
            if (v.kind == 3 || v.kind == 4 || v.kind == 5 || v.kind == 8 || v.kind == 9) && v.flags & 2 == 0
                && v.watch_template as usize == thing_idx
            {
                v.watch_ent = ent as u16;
                v.flags = v.flags & 0xFB;
                self.mc2_stagevars.set(k, v);
            }
            k += 1;
        }
        proof {
            assert(self.mc2_stagevars@ =~= Seq::new(s1.vars.len(), |j: int| bind_watch(s1.vars[j], ent as int, thing_idx as int)));
        }
    }
}

/// Slot `k` of the loaded table: slot 0 stays empty, the others decode
/// their record.
pub open spec fn load_slot(recs: Seq<(i8, i8, u8, u8, u32)>, k: int, models: Seq<u8>) -> Mc2StageVar {
    if k == 0 { empty_var_spec() } else { decode_spec(recs[k], models) }
}

impl World {
    /// The highest record index in `1..min(11, len)` with a nonzero
    /// kind.
    fn last_live_exec(vars: &[(i8, i8, u8, u8, u32)]) -> (r: Option<usize>)
        ensures
            r is None <==> last_live(vars@, if vars@.len() < 11 { vars@.len() as int } else { 11 }) is None,
            r matches Some(k) ==> last_live(vars@, if vars@.len() < 11 { vars@.len() as int } else { 11 }) == Some(k as int)
                && k < vars@.len() && k < 11,
    {
        let mut k: usize = if vars.len() < 11 { vars.len() } else { 11 };
        let ghost k0 = k as int;
        while k > 1
            invariant
                k <= k0,
                k0 <= vars@.len(),
                k0 <= 11,
                k0 == (if vars@.len() < 11 { vars@.len() as int } else { 11 }),
                last_live(vars@, k0) == last_live(vars@, k as int),
            decreases k,
        {
            if (vars[k - 1].0 as u8) & 0xF != 0 {
                return Some(k - 1);
            }
            k -= 1;
        }
        None
    }

    /// The empty slot.
    fn empty_var() -> (r: Mc2StageVar)
        ensures
            r == empty_var_spec(),
    {
        Mc2StageVar {
            kind: 0,
            flags: 0,
            chain: 0,
            cadence: 0,
            hold_word: 0,
            hold_subtype: 0,
            point: (0, 0),
            watch_template: 0,
            watch_model: 0,
            watch_ent: 0,
            param: 0,
        }
    }

    /// The live slot decoded from one level record: see [`decode_spec`].
    fn decode_var(&self, v: (i8, i8, u8, u8, u32)) -> (r: Mc2StageVar)
        ensures
            r == decode_spec(v, self.thing_models@),
    {
        let byte0 = v.0 as u8;
        let kind = byte0 & 0xF;
        if kind == 0 {
            return Mc2StageVar {
                kind: 0,
                flags: 0,
                chain: 0,
                cadence: 0,
                hold_word: 0,
                hold_subtype: 0,
                point: (0, 0),
                watch_template: 0,
                watch_model: 0,
                watch_ent: 0,
                param: 0,
            };
        }
        let flags: u8 = (if byte0 & 0x80 != 0 { 1u8 } else { 0u8 }) | (if byte0 & 0x40 != 0 { 2u8 } else { 0u8 })
            | (if byte0 & 0x10 != 0 { 0x20u8 } else { 0u8 }) | (if byte0 & 0x20 != 0 { 0x40u8 } else { 0u8 });
        let x = v.2;
        let y = v.3;
        let hold_word = (x as u16) | ((y as u16) << 8);
        assert(hold_word == x as u16 + 256 * (y as u16)) by (bit_vector)
            requires
                hold_word == (x as u16) | ((y as u16) << 8u16),
        ;
        let hold_subtype = self.table_model_or0(hold_word as usize);
        let data = v.4;
        let wt = (data & 0xFFFF) as u16;
        assert((data & 0xFFFFu32) as int == data % 0x10000) by (bit_vector);
        let point = if kind == 1 || kind == 2 {
            let px = ((data & 0xFF) as u16) << 8;
            let py = (((data >> 16) & 0xFF) as u16) << 8;
            assert(px as int == (data % 256) * 256) by (bit_vector)
                requires
                    px == ((data & 0xFFu32) as u16) << 8u16,
            ;
            assert(py as int == ((data / 0x10000) % 256) * 256) by (bit_vector)
                requires
                    py == (((data >> 16u32) & 0xFFu32) as u16) << 8u16,
            ;
            (px, py)
        } else {
            (0, 0)
        };
        let watch_model = if (kind == 3 || kind == 4 || kind == 5 || kind == 8 || kind == 9) && flags & 0x02 != 0 {
            self.table_model_or0(wt as usize)
        } else {
            0
        };
        Mc2StageVar {
            kind,
            flags,
            chain: v.1 as u8,
            cadence: 0,
            hold_word,
            hold_subtype,
            point,
            watch_template: wt,
            watch_model,
            watch_ent: 0,
            param: wt,
        }
    }

    /// Load the level's StageVar records `(index, stage, x, y, data)`
    /// (index-aligned; slot 0 is present but unused, so it stays empty
    /// and never counts): clear the slots and holds, decode the records
    /// up to the highest live one in slots 1..=10, then hold or
    /// watch-bind every live class-5 creature with a template already in
    /// the pool. With no live record in 1..=10 the table stays empty.
    pub fn set_mc2_stagevars(&mut self, vars: &[(i8, i8, u8, u8, u32)])
        requires
            old(self).wf(),
        ensures
            final(self).wf(),
            old(self).sv_frame(final(self)),
            ({
                let recs = vars@;
                let lim = if recs.len() < 11 { recs.len() as int } else { 11 };
                final(self).sv() == match last_live(recs, lim) {
                    None => SvState { ents: old(self).g.ent@, vars: Seq::empty(), held: Seq::empty() },
                    Some(c) => retro_spec(
                        SvState {
                            ents: old(self).g.ent@,
                            vars: Seq::new((c + 1) as nat, |k: int| load_slot(recs, k, old(self).thing_models@)),
                            held: Seq::empty(),
                        },
                        1,
                        old(self).g.ent@.len() as int,
                    ),
                }
            }),
    {
        self.mc2_stagevars = Vec::new();
        self.mc2_sv_held = Vec::new();
        let count = match Self::last_live_exec(vars) {
            Some(c) => c,
            None => {
                proof {
                    assert(self.mc2_stagevars@ =~= Seq::<Mc2StageVar>::empty());
                    assert(self.mc2_sv_held@ =~= Seq::<Mc2Held>::empty());
                }
                return;
            },
        };
        let mut k: usize = 0;
        while k <= count
            invariant
                self.wf(),
                old(self).sv_frame(self),
                self.g.ent@ == old(self).g.ent@,
                self.mc2_sv_held@.len() == 0,
                count < vars@.len(),
                count < 11,
                k <= count + 1,
                self.mc2_stagevars@ == Seq::new(k as nat, |j: int| load_slot(vars@, j, old(self).thing_models@)),
            decreases count + 1 - k,
        {
            let v = if k == 0 { Self::empty_var() } else { self.decode_var(vars[k]) };
            self.mc2_stagevars.push(v);
            proof {
                assert(self.mc2_stagevars@ =~= Seq::new((k + 1) as nat, |j: int| load_slot(vars@, j, old(self).thing_models@)));
            }
            k += 1;
        }
        let ghost s0 = self.sv();
        proof {
            assert(self.mc2_sv_held@ =~= Seq::<Mc2Held>::empty());
        }
        let n = self.g.ent.len();
        let mut i: usize = 1;
        while i < n
            invariant
                self.wf(),
                old(self).sv_frame(self),
                n == self.g.ent@.len(),
                1 <= i <= n,
                retro_spec(s0, 1, n as int) == retro_spec(self.sv(), i as int, n as int),
            decreases n - i,
        {
            let e = self.g.ent[i];
            if e.class64 == 5 && e.thing_slot != 0 {
                self.mc2_stagevar_attach(i, e.thing_slot as usize);
            }
            i += 1;
        }
    }

    /// Firing disposition `dis` arms every kind-7 slot with that id.
    pub fn mc2_stagevar_arm_disposition(&mut self, dis: u16)
        requires
            old(self).wf(),
        ensures
            final(self).wf(),
            old(self).sv_frame(final(self)),
            final(self).sv() == (SvState {
                vars: Seq::new(old(self).mc2_stagevars@.len(), |k: int| arm_dis_var(old(self).mc2_stagevars@[k], dis)),
                ..old(self).sv()
            }),
    {
        let ghost vars0 = self.mc2_stagevars@;
        let n = self.mc2_stagevars.len();
        let mut k: usize = 0;
        while k < n
            invariant
                self.wf(),
                old(self).sv_frame(self),
                self.g.ent@ == old(self).g.ent@,
                self.mc2_sv_held@ == old(self).mc2_sv_held@,
                vars0 == old(self).mc2_stagevars@,
                n == vars0.len(),
                n == self.mc2_stagevars@.len(),
                k <= n,
                forall|j: int| 0 <= j < n ==> #[trigger] self.mc2_stagevars@[j] == if j < k { arm_dis_var(vars0[j], dis) } else { vars0[j] },
            decreases n - k,
        {
            let mut v = self.mc2_stagevars[k];
            if v.kind == 7 && v.param == dis {
                v.flags = v.flags | 0x18;
                self.mc2_stagevars.set(k, v);
            }
            k += 1;
        }
        proof {
            assert(self.mc2_stagevars@ =~= Seq::new(vars0.len(), |j: int| arm_dis_var(vars0[j], dis)));
        }
    }

    /// Un-fire the fired model-watch slots so their gates can re-fire.
    pub fn mc2_stagevar_rearm_watchers(&mut self)
        requires
            old(self).wf(),
        ensures
            final(self).wf(),
            old(self).sv_frame(final(self)),
            final(self).sv() == (SvState {
                vars: Seq::new(old(self).mc2_stagevars@.len(), |k: int| rearm_var(old(self).mc2_stagevars@[k])),
                ..old(self).sv()
            }),
            final(self).mc2_stagevars@.len() == old(self).mc2_stagevars@.len(),
    {
        let ghost vars0 = self.mc2_stagevars@;
        let n = self.mc2_stagevars.len();
        let mut k: usize = 0;
        while k < n
            invariant
                self.wf(),
                old(self).sv_frame(self),
                self.g.ent@ == old(self).g.ent@,
                self.mc2_sv_held@ == old(self).mc2_sv_held@,
                vars0 == old(self).mc2_stagevars@,
                n == vars0.len(),
                n == self.mc2_stagevars@.len(),
                k <= n,
                forall|j: int| 0 <= j < n ==> #[trigger] self.mc2_stagevars@[j] == if j < k { rearm_var(vars0[j]) } else { vars0[j] },
            decreases n - k,
        {
            let mut v = self.mc2_stagevars[k];
            if (v.kind == 3 || v.kind == 4 || v.kind == 5 || v.kind == 8 || v.kind == 9) && v.flags & 0x04 != 0
                && v.flags & 0x02 != 0
            {
                v.flags = v.flags & 0xFB;
                self.mc2_stagevars.set(k, v);
            }
            k += 1;
        }
        proof {
            assert(self.mc2_stagevars@ =~= Seq::new(vars0.len(), |j: int| rearm_var(vars0[j])));
        }
    }

    /// Is model `model` extinct (no live class-5 instance)?
    pub fn mc2_model_extinct(&self, model: u8) -> (r: bool)
        ensures
            r == extinct_spec(self.g.ent@, model),
    {
        let n = self.g.ent.len();
        let mut j: usize = 1;
        while j < n
            invariant
                n == self.g.ent@.len(),
                1 <= j || n == 0,
                j <= n || n == 0,
                forall|k: int| 1 <= k < j ==> !live_of(#[trigger] self.g.ent@[k], model),
            decreases n - j,
        {
            let e = self.g.ent[j];
            if e.class64 == 5 && e.model65 == model && e.act_life >= 0
                && !(e.tick70 == 0xB4 || e.tick70 == 0xE8 || e.tick70 == 0xEA) && e.flags & F_DEAD == 0
            {
                assert(live_of(self.g.ent@[j as int], model));
                return false;
            }
            j += 1;
        }
        true
    }

    /// Does bound slot `slot` read dead or being removed?
    pub fn mc2_ent_dead(&self, slot: u16) -> (r: bool)
        ensures
            r == dead_spec(self.g.ent@, slot),
    {
        if slot as usize >= self.g.ent.len() {
            return true;
        }
        let e = &self.g.ent[slot as usize];
        e.class64 == 0 || e.act_life < 0 || e.flags & F_DEAD != 0
    }

    /// The global scan over slots 1..: see [`scan_var`].
    fn stagevar_scan(&mut self)
        requires
            old(self).wf(),
        ensures
            final(self).wf(),
            old(self).sv_frame(final(self)),
            final(self).sv() == (SvState {
                vars: Seq::new(old(self).mc2_stagevars@.len(), |k: int| if k >= 1 {
                    scan_var(old(self).mc2_stagevars@[k], old(self).g.ent@)
                } else {
                    old(self).mc2_stagevars@[k]
                }),
                ..old(self).sv()
            }),
    {
        let ghost vars0 = self.mc2_stagevars@;
        let ghost ents = self.g.ent@;
        let n = self.mc2_stagevars.len();
        let mut k: usize = 1;
        if n == 0 {
            proof {
                assert(self.mc2_stagevars@ =~= Seq::new(vars0.len(), |j: int| if j >= 1 { scan_var(vars0[j], ents) } else { vars0[j] }));
            }
            return;
        }
        while k < n
            invariant
                self.wf(),
                old(self).sv_frame(self),
                self.g.ent@ == ents,
                ents == old(self).g.ent@,
                self.mc2_sv_held@ == old(self).mc2_sv_held@,
                vars0 == old(self).mc2_stagevars@,
                n == vars0.len(),
                n == self.mc2_stagevars@.len(),
                1 <= k <= n,
                forall|j: int| 0 <= j < n ==> #[trigger] self.mc2_stagevars@[j] == if 1 <= j < k { scan_var(vars0[j], ents) } else { vars0[j] },
            decreases n - k,
        {
            let mut v = self.mc2_stagevars[k];
            if v.kind == 3 || v.kind == 4 || v.kind == 5 || v.kind == 8 || v.kind == 9 {
                if v.flags & 0x04 == 0 {
                    let fired = if v.flags & 0x02 != 0 {
                        self.mc2_model_extinct(v.watch_model)
                    } else {
                        v.watch_ent != 0 && self.mc2_ent_dead(v.watch_ent)
                    };
                    if fired {
                        v.flags = v.flags | 0x04;
                        self.mc2_stagevars.set(k, v);
                    }
                }
            } else if v.kind == 7 {
                let f = v.flags;
                if f & 0x18 != 0 {
                    v.flags = if f & 0x10 != 0 { f & 0xEF } else { f & 0xF7 };
                    self.mc2_stagevars.set(k, v);
                }
            }
            k += 1;
        }
        proof {
            assert(self.mc2_stagevars@ =~= Seq::new(vars0.len(), |j: int| if j >= 1 { scan_var(vars0[j], ents) } else { vars0[j] }));
        }
    }

    /// The first binding of entity `ent`.
    fn find_binding_exec(&self, ent: u16) -> (r: Option<usize>)
        ensures
            r is None <==> find_binding(self.mc2_sv_held@, ent, 0) is None,
            r matches Some(b) ==> find_binding(self.mc2_sv_held@, ent, 0) == Some(b as int) && b < self.mc2_sv_held@.len(),
    {
        let n = self.mc2_sv_held.len();
        let mut k: usize = 0;
        while k < n
            invariant
                n == self.mc2_sv_held@.len(),
                k <= n,
                find_binding(self.mc2_sv_held@, ent, 0) == find_binding(self.mc2_sv_held@, ent, k as int),
            decreases n - k,
        {
            if self.mc2_sv_held[k].ent == ent {
                return Some(k);
            }
            k += 1;
        }
        None
    }

    /// The reaction to snapshot binding `h`: see [`react_spec`].
    fn stagevar_react(&mut self, h: Mc2Held)
        requires
            old(self).wf(),
            (h.slot as int) < old(self).mc2_stagevars@.len(),
        ensures
            final(self).wf(),
            old(self).sv_frame(final(self)),
            final(self).sv() == react_spec(old(self).sv(), h),
            final(self).mc2_stagevars@.len() == old(self).mc2_stagevars@.len(),
    {
        let ent = h.ent as usize;
        if ent >= self.g.ent.len() {
            self.held_drop(h.ent);
            return;
        }
        let e = self.g.ent[ent];
        if e.class64 != 5 || e.site_z == 0 || e.flags & F_DEAD != 0 || e.act_life < 0 {
            self.held_drop(h.ent);
            return;
        }
        let v = self.mc2_stagevars[h.slot as usize];
        let phase = e.tick70 & 7;
        if 4 <= phase && phase <= 5 {
            return;
        }
        let ex = e.x;
        let ey = e.y;
        let release = if v.kind == 1 {
            abs16(v.point.0, ex) <= 2048 && abs16(v.point.1, ey) <= 2048
        } else if v.kind == 3 {
            v.flags & 0x04 != 0
        } else if v.kind == 4 || v.kind == 5 || v.kind == 8 || v.kind == 9 {
            if v.flags & 0x04 != 0 {
                true
            } else if v.flags & 0x02 == 0 && v.kind == 9 && (v.point.0 != 0 || v.point.1 != 0) {
                abs16(v.point.0, ex) <= 3072 && abs16(v.point.1, ey) <= 3072
            } else {
                false
            }
        } else if v.kind == 6 {
            match self.find_binding_exec(h.ent) {
                Some(b) => {
                    let mut hb = self.mc2_sv_held[b];
                    hb.timer = hb.timer.wrapping_sub(1);
                    self.mc2_sv_held.set(b, hb);
                    hb.timer <= 0
                },
                None => true,
            }
        } else if v.kind == 7 {
            if v.flags & 0x18 != 0 {
                self.mc2_stagevar_rearm_watchers();
                true
            } else {
                false
            }
        } else {
            false
        };
        if release {
            self.mc2_stagevar_release(ent, h.slot, false);
        }
    }

    /// The per-tick StageVar pass: see [`tick_spec`]. It runs before the
    /// entity ticks, so a released creature acts the same tick.
    pub fn mc2_stagevar_tick(&mut self)
        requires
            old(self).wf(),
        ensures
            final(self).wf(),
            old(self).sv_frame(final(self)),
            final(self).sv() == tick_spec(old(self).sv()),
    {
        if self.mc2_stagevars.len() == 0 {
            return;
        }
        self.stagevar_scan();
        let ghost s1 = self.sv();
        let n = self.mc2_sv_held.len();
        let mut snap: Vec<Mc2Held> = Vec::new();
        let mut k: usize = 0;
        while k < n
            invariant
                n == self.mc2_sv_held@.len(),
                k <= n,
                snap@ == self.mc2_sv_held@.take(k as int),
            decreases n - k,
        {
            snap.push(self.mc2_sv_held[k]);
            proof {
                assert(snap@ =~= self.mc2_sv_held@.take(k + 1));
            }
            k += 1;
        }
        proof {
            assert(snap@ =~= self.mc2_sv_held@);
        }
        let m = self.mc2_stagevars.len();
        let mut k: usize = 0;
        while k < n
            invariant
                self.wf(),
                old(self).sv_frame(self),
                n == snap@.len(),
                snap@ == s1.held,
                held_ok(snap@, s1.ents.len() as int, m as int),
                m == self.mc2_stagevars@.len(),
                k <= n,
                self.sv() == react_all(s1, snap@, k as int),
            decreases n - k,
        {
            let h = snap[k];
            self.stagevar_react(h);
            k += 1;
        }
    }
}

/// `|a - b|` on the wrapped 16-bit difference.
pub fn abs16(a: u16, b: u16) -> (r: i32)
    ensures
        r == abs16_spec(a, b),
{
    let d = a.wrapping_sub(b) as i16 as i32;
    if d < 0 { -d } else { d }
}

} // verus!
