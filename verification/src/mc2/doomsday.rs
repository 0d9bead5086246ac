//! The MC2 doomsday pyramid: its 16-state machine with the damage
//! intake, summon pick and facing step, and the level-wide creature
//! kill of its death script.

use vstd::prelude::*;
use vstd::wrapping::u16_specs;
use crate::mobs::{turn_step, turn_step_spec};
use crate::mobs::{sprite_ent, wd16};
use crate::mc2::castle::clamp;
use crate::mc2::mobs::{chains_of, clear_frees, clear_tile_pool, lemma_chains_of_in_pool, lemma_chains_of_same_links, lemma_frees_concat, wipe_tiles};
use crate::world::{center_byte, center_spec, Ent, Gen, MobCtx, World, F_DEAD, PLAYER_TARGET};

verus! {

/// The per-tick damage the pyramid takes from a mail amount: the amount
/// read as a signed word, clamped to 1..=300.
pub open spec fn pyramid_hit(amount: u32) -> i32 {
    let a = amount as i32;
    if a < 1 { 1 } else if a > 300 { 300 } else { a }
}

/// The pyramid's intake on `e`: while armed (`f58 != 0`) a pending
/// channel-0 mail lands (its clamped amount off life, the sender into
/// the attacker slot, the sender cleared); then life below 10 is pinned
/// back to 8, so the pyramid never dies of damage.
pub open spec fn pyramid_mail_spec(w: Ent, e: Ent) -> bool {
    let hit = e.f58 != 0 && e.mail[0].1 != 0;
    let life = if hit { e.act_life - pyramid_hit(e.mail[0].0) } else { e.act_life as int };
    let life2 = if life < 10 { 8 } else { life };
    &&& w == Ent { act_life: life2 as i32, f40: if hit { e.mail[0].1 } else { e.f40 }, mail: w.mail, ..e }
    &&& w.mail@ == if hit { e.mail@.update(0, (e.mail[0].0, 0u16)) } else { e.mail@ }
}

/// The kill-all step on one pool entity: creatures other than the
/// pyramid (model 10) die, with the player as the killer; the branch
/// heads (model 27) get the teardown state 221 instead of losing life.
pub open spec fn kill_all_spec(e: Ent) -> Ent {
    if e.class64 != 5 || e.model65 == 10 {
        e
    } else if e.model65 == 27 {
        Ent { tick70: 221, f38: PLAYER_TARGET, ..e }
    } else {
        Ent { act_life: -1i32, f38: PLAYER_TARGET, ..e }
    }
}

/// The pyramid never dies of damage: after the intake its life is at
/// least 8, whatever landed.
pub proof fn pyramid_never_dies(w: Ent, e: Ent)
    requires
        pyramid_mail_spec(w, e),
        e.f58 != 0 && e.mail[0].1 != 0 ==> e.act_life - pyramid_hit(e.mail[0].0) >= i32::MIN,
    ensures
        w.act_life >= 8,
{
}

/// Every creature but the pyramid and the branch heads dies, credited
/// to the player; the branch heads go to their teardown state.
pub proof fn kill_all_kills(e: Ent)
    requires
        e.class64 == 5,
        e.model65 != 10,
    ensures
        kill_all_spec(e).f38 == PLAYER_TARGET,
        e.model65 == 27 ==> kill_all_spec(e).tick70 == 221,
        e.model65 != 27 ==> kill_all_spec(e).act_life < 0,
{
}

/// The number of creatures (class 5) of model `m` in pool slots 1 up.
pub open spec fn pop_count(ents: Seq<Ent>, m: u8) -> nat
    decreases ents.len(),
{
    if ents.len() <= 1 {
        0
    } else {
        pop_count(ents.drop_last(), m) + if ents.last().class64 == 5 && ents.last().model65 == m {
            1nat
        } else {
            0nat
        }
    }
}

/// A pool entity rewritten in place, kind and model kept, leaves every
/// population count as it was.
pub proof fn lemma_pop_count_update(ents: Seq<Ent>, i: int, x: Ent, m: u8)
    requires
        0 <= i < ents.len(),
        x.class64 == ents[i].class64,
        x.model65 == ents[i].model65,
    ensures
        pop_count(ents.update(i, x), m) == pop_count(ents, m),
    decreases ents.len(),
{
    if ents.len() > 1 {
        if i < ents.len() - 1 {
            assert(ents.update(i, x).drop_last() =~= ents.drop_last().update(i, x));
            lemma_pop_count_update(ents.drop_last(), i, x, m);
        } else {
            assert(ents.update(i, x).drop_last() =~= ents.drop_last());
        }
    }
}

/// The beam pick: the player-pull beam for 24 repeats over 32 ticks.
pub open spec fn beam_pick(e: Ent) -> Ent {
    Ent { f68: 7, f38: 24, f26: 32, ..e }
}

/// The summon pick on the pyramid `e`, with the live counts of models
/// 19, 0, 25 and 21 and the two draws `d1`, `d2` from its random
/// stream. After a devour (`f44 & 1`) the beam follows if the pyramid
/// is armed (`f58`), else nothing; otherwise a roll of `d1 % 70` picks
/// the beam (3..=6) or, while its population is under its cap, a
/// creature ring (model 19 below 28: 8 repeats, stride 256; model 0
/// below 4: 3 repeats, stride 682; model 25 below 6; model 21 below
/// 12), and failing both a roll of `d2 % 29` picks a projectile burst
/// (bolts 10, fire bolts 8, meteor shots 5, whirlwind seeds 5) or the
/// beam.
pub open spec fn pick_spec(e: Ent, c19: nat, c0: nat, c25: nat, c21: nat, d1: u32, d2: u32) -> Ent {
    let e0 = Ent { f44: e.f44 & 0xFFFDu16, ..e };
    if e0.f44 & 1 != 0 {
        let e1 = Ent { f44: e0.f44 & 0xFFFEu16, ..e0 };
        if e1.f58 != 0 {
            beam_pick(e1)
        } else {
            Ent { f68: 0, ..e1 }
        }
    } else {
        let e1 = Ent { f44: e0.f44 | 2, ..e0 };
        let v = d1 % 70;
        if 3 <= v <= 6 {
            beam_pick(e1)
        } else if 40 <= v <= 48 && c19 < 28 {
            Ent { f68: 6, f38: 8, f26: 8, f50: 256, ..e1 }
        } else if 49 <= v <= 58 && c0 < 4 {
            Ent { f68: 3, f38: 3, f50: 682, ..e1 }
        } else if 59 <= v <= 68 && c25 < 6 {
            Ent { f68: 5, ..e1 }
        } else if v >= 69 && c21 < 12 {
            Ent { f68: 4, ..e1 }
        } else {
            let w = d2 % 29;
            if w <= 7 {
                Ent { f68: 1, f38: 10, ..e1 }
            } else if w <= 17 {
                Ent { f68: 2, f38: 8, ..e1 }
            } else if w <= 25 {
                Ent { f68: 9, f38: 5, ..e1 }
            } else if w <= 27 {
                Ent { f68: 8, f38: 5, ..e1 }
            } else {
                beam_pick(e1)
            }
        }
    }
}

/// The pick's phase-bit arithmetic.
proof fn lemma_pick_bits(x: u16)
    by (bit_vector)
    ensures
        (x & 0xFFFDu16) & 1u16 == x & 1u16,
        (x & 0xFFFDu16) & 0xFFFEu16 == x & 0xFFFCu16,
        (x & 0xFFFDu16) | 2u16 == x | 2u16,
{
}

/// What the summon pick decides, outcome by outcome, from the pyramid's
/// devour bit (`f44 & 1`), its arming (`f58`), the rolls `d1 % 70` and
/// `d2 % 29` and the population counts of models 19, 0, 25 and 21:
/// after a devour the beam (7) if armed, else nothing (0); otherwise a
/// first roll of 3..=6 is the beam, 40..=48 the model-19 ring (6) while
/// fewer than 28 live, 49..=58 the model-0 ring (3) under 4, 59..=68 the
/// model-25 ring (5) under 6, 69 up the model-21 ring (4) under 12;
/// failing both, the second roll picks bolts (1) on 0..=7, fire bolts
/// (2) on 8..=17, meteor shots (9) on 18..=25, whirlwind seeds (8) on
/// 26..=27 and the beam on 28. Each pick sets its repeat count (and the
/// ring strides); the devour bit is consumed, bit 1 records a rolled
/// pick, and nothing else changes.
pub proof fn pick_outcomes(e: Ent, c19: nat, c0: nat, c25: nat, c21: nat, d1: u32, d2: u32)
    ensures
        ({
            let r = pick_spec(e, c19, c0, c25, c21, d1, d2);
            let dev = e.f44 & 1u16 != 0;
            let v = d1 % 70;
            let w = d2 % 29;
            let rolled = !dev && !(3 <= v <= 6) && !(40 <= v <= 48 && c19 < 28) && !(49 <= v <= 58 && c0 < 4)
                && !(59 <= v <= 68 && c25 < 6) && !(v >= 69 && c21 < 12);
            &&& r.f68 == 0 <==> dev && e.f58 == 0
            &&& r.f68 == 7 <==> (dev && e.f58 != 0) || (!dev && 3 <= v <= 6) || (rolled && w >= 28)
            &&& r.f68 == 6 <==> !dev && 40 <= v <= 48 && c19 < 28
            &&& r.f68 == 3 <==> !dev && 49 <= v <= 58 && c0 < 4
            &&& r.f68 == 5 <==> !dev && 59 <= v <= 68 && c25 < 6
            &&& r.f68 == 4 <==> !dev && v >= 69 && c21 < 12
            &&& r.f68 == 1 <==> rolled && w <= 7
            &&& r.f68 == 2 <==> rolled && 8 <= w <= 17
            &&& r.f68 == 9 <==> rolled && 18 <= w <= 25
            &&& r.f68 == 8 <==> rolled && 26 <= w <= 27
            &&& r.f68 == 7 ==> r.f38 == 24 && r.f26 == 32
            &&& r.f68 == 6 ==> r.f38 == 8 && r.f26 == 8 && r.f50 == 256
            &&& r.f68 == 3 ==> r.f38 == 3 && r.f50 == 682
            &&& r.f68 == 1 ==> r.f38 == 10
            &&& r.f68 == 2 ==> r.f38 == 8
            &&& (r.f68 == 9 || r.f68 == 8) ==> r.f38 == 5
            &&& (r.f68 == 0 || r.f68 == 5 || r.f68 == 4) ==> r.f38 == e.f38
            &&& r.f68 != 7 && r.f68 != 6 ==> r.f26 == e.f26
            &&& r.f68 != 6 && r.f68 != 3 ==> r.f50 == e.f50
            &&& r.f44 == if dev { e.f44 & 0xFFFCu16 } else { e.f44 | 2u16 }
            &&& r == (Ent { f44: r.f44, f68: r.f68, f38: r.f38, f26: r.f26, f50: r.f50, ..e })
        }),
{
    lemma_pick_bits(e.f44);
}

/// The relative-yaw bucket of the pyramid against the player's yaw.
pub open spec fn yaw_bucket(f30: u16, pyaw: u16) -> u16 {
    ((u16_specs::wrapping_sub(f30, pyaw) >> 3u16) & 0xF0u16) >> 4u16
}

/// Does the facing step run the rate-limited turn (life at least 10,
/// bucket 3..=12)?
pub open spec fn face_turns(e: Ent, pyaw: u16) -> bool {
    e.act_life >= 10 && 3 <= yaw_bucket(e.f30, pyaw) <= 12
}

/// The pyramid's facing step on `e`: z re-clamped to the ground height
/// `ground` (kept to 16 bits); with life of at least 10, a yaw bucket of
/// 0..=2 snaps the yaw to the player's yaw + 384 and one of 13..=15 to
/// the player's yaw + 6; otherwise the facing mode (`f69`) sets the
/// target yaw (0: toward the player, bearing `toward`; 2: the player's
/// yaw ± 512 by frame parity, then mode 1; 3: hold) and the yaw turns
/// toward it by at most the rate `f46`.
pub open spec fn face_spec(e: Ent, pyaw: u16, ground: i32, toward: u16) -> Ent {
    let e1 = Ent { z: ground as i16, ..e };
    if e1.act_life < 10 {
        e1
    } else if yaw_bucket(e1.f30, pyaw) <= 2 {
        Ent { f30: u16_specs::wrapping_add(pyaw, 384) & 0x7FFu16, ..e1 }
    } else if yaw_bucket(e1.f30, pyaw) >= 13 {
        Ent { f30: u16_specs::wrapping_add(pyaw, 6) & 0x7FFu16, ..e1 }
    } else {
        let e2 = if e1.f69 == 0 {
            Ent { f34: toward, ..e1 }
        } else if e1.f69 == 2 {
            let side: u16 = if e1.f63 & 1 == 0 { 512 } else { 1536 };
            Ent { f34: u16_specs::wrapping_add(pyaw, side) & 0x7FFu16, f69: 1, ..e1 }
        } else if e1.f69 == 3 {
            Ent { f34: e1.f30, ..e1 }
        } else {
            e1
        };
        let step = turn_step_spec(e2.f30, e2.f34, e2.f46);
        Ent { f30: ((e2.f30 as int + step as int) as u16) & 0x7FFu16, ..e2 }
    }
}


/// What the engine's own passes and routines around one pyramid tick
/// returned: the proximity-devour pass tripped; the attack pass finished
/// its run; the draws from the pyramid's random stream (the state 2/3
/// roll and the summon pick's two; drawing them advances the stream,
/// which is the caller's part); the slots the meteor and dome spawns
/// took; the ground height under the pyramid and its bearing to the
/// player.
#[derive(Debug, Clone, Copy, PartialEq, Eq)]
pub struct DoomEvents {
    pub devoured: bool,
    pub attacked: bool,
    pub draw: u32,
    pub summon_draws: (u32, u32),
    pub meteor: Option<usize>,
    pub dome: Option<usize>,
    pub ground: i32,
    pub toward: u16,
}

/// What a pyramid tick leaves to the engine: the scenery entities its
/// footprint wipe removes (freeing a pool slot is the engine's), the
/// attack pass at the pyramid's tile, and the summon pass.
#[derive(Debug, Clone, PartialEq, Eq)]
pub struct DoomCalls {
    pub freed: Vec<usize>,
    pub attack: Option<(u8, u8)>,
    pub summon: bool,
}

/// The thin handlers (actions 81..=83, 86, 87) fall back to action 80.
pub open spec fn thin_reset(e: Ent) -> Ent {
    if (81 <= e.tick70 <= 83) || e.tick70 == 86 || e.tick70 == 87 {
        Ent { tick70: 80, ..e }
    } else {
        e
    }
}

/// The pyramid after the thin-handler reset and a devour trip (phase
/// bit 0).
pub open spec fn doom_armed(e: Ent, devoured: bool) -> Ent {
    let e1 = thin_reset(e);
    if devoured { Ent { f44: e1.f44 | 1, ..e1 } } else { e1 }
}

/// Does the tick run the damage intake (states 2..=11 with life of at
/// least 10)?
pub open spec fn doom_mails(e: Ent) -> bool {
    e.f71 > 1 && !(12 <= e.f71 <= 15) && e.act_life >= 10
}

/// The intake's effect on every field but the mailboxes: see
/// [`pyramid_mail_spec`].
pub open spec fn mail_core(e: Ent) -> Ent {
    let hit = e.f58 != 0 && e.mail[0].1 != 0;
    let life = if hit { e.act_life - pyramid_hit(e.mail[0].0) } else { e.act_life as int };
    let life2 = if life < 10 { 8 } else { life };
    Ent { act_life: life2 as i32, f40: if hit { e.mail[0].1 } else { e.f40 }, ..e }
}

/// The pyramid as the state machine reads it (mailboxes aside).
pub open spec fn doom_core(e: Ent) -> Ent {
    if doom_mails(e) { mail_core(e) } else { e }
}

/// `a / b` rounded toward zero (`b > 0`).
pub open spec fn div_toward_zero(a: int, b: int) -> int {
    if a >= 0 { a / b } else { -((-a) / b) }
}

/// The state-2 dwell: `26 * life / max(max_life, 1)` less the draw's low
/// three bits, clamped to 3..=26.
pub open spec fn dwell_roll(c: Ent, draw: u32) -> i16 {
    let m = c.max_life as i32 as int;
    let m1 = if m < 1 { 1 } else { m };
    clamp(div_toward_zero(26 * c.act_life, m1) - (draw & 7u32) as int, 3, 26) as i16
}

/// The player within 0x2000 of the pyramid (wrapped 16-bit deltas).
pub open spec fn player_near(c: Ent, ctx: MobCtx) -> bool {
    let dx = wd16(c.x, ctx.px);
    let dy = wd16(c.y, ctx.py);
    dx * dx + dy * dy < 0x2000 * 0x2000
}

/// The dwell state's squared distance to the player fits 32 bits (it
/// does unless both deltas are -0x8000).
pub open spec fn near_fits(c: Ent, ctx: MobCtx) -> bool {
    let dx = wd16(c.x, ctx.px);
    let dy = wd16(c.y, ctx.py);
    dx * dx + dy * dy <= i32::MAX
}

/// One tick off the state countdown.
pub open spec fn dec26(e: Ent) -> Ent {
    Ent { f26: (e.f26 - 1) as i16, ..e }
}

/// Count down, moving to `next` when the countdown runs out.
pub open spec fn countdown(c: Ent, next: u8) -> Ent {
    let c1 = dec26(c);
    if c1.f26 <= 0 { Ent { f71: next, ..c1 } } else { c1 }
}

/// Does this state decrement the countdown?
pub open spec fn doom_decrements(c: Ent) -> bool {
    ||| c.f71 == 5 || c.f71 == 7 || c.f71 == 9 || c.f71 == 11
    ||| 13 <= c.f71 <= 15
    ||| c.f71 == 3 && c.act_life >= 10 && c.f44 & 1 == 0
}

/// Does this state set a sprite row (341..=345)?
pub open spec fn doom_sets_sprite(c: Ent) -> bool {
    ||| c.f71 == 2 || c.f71 == 6 || c.f71 == 8 || c.f71 == 10
    ||| c.f71 == 13 && c.f26 - 1 <= 0
}

/// The state machine's step on the pyramid itself (`c` read after the
/// intake; `k` the population counts of models 19, 0, 25 and 21):
/// 0 activate (target the player); 1 attack until done, then 4;
/// 2 roll the dwell, then 3; 3 count the dwell down near the player
/// (dying at life under 10 goes to 12, a devour to 6), then 4 or 6 by a
/// roll of 12; 4/5 a 6-tick wind-up; 6/7 a 16-tick rise; 8 pick the
/// summon, 9 run it; 10/11 a 16-tick settle, then 2; 12..=15 the death
/// script (13: 32 ticks, 14: 32 ticks ending at life -1, 15: 60 ticks
/// ending dead).
pub open spec fn doom_step(c: Ent, stats: Seq<crate::world::SpriteStats>, ctx: MobCtx, ev: DoomEvents, k: (nat, nat, nat, nat)) -> Ent {
    if c.f71 == 0 {
        Ent { f71: 1, f44: 8, f26: 15, f46: 22, f146: PLAYER_TARGET, ..c }
    } else if c.f71 == 1 {
        if ev.attacked { Ent { f71: 4, f44: c.f44 | 0x80, ..c } } else { c }
    } else if c.f71 == 2 {
        sprite_ent(Ent { f26: dwell_roll(c, ev.draw), f71: 3, f69: 0, f46: 22, ..c }, 341, stats[341])
    } else if c.f71 == 3 {
        if c.act_life < 10 {
            Ent { f71: 12, ..c }
        } else if c.f44 & 1 != 0 {
            Ent { f71: 6, ..c }
        } else {
            let c1 = dec26(c);
            if player_near(c, ctx) && c1.f26 <= 0 {
                Ent { f71: if ev.draw % 12 < 9 { 4u8 } else { 6u8 }, ..c1 }
            } else {
                c1
            }
        }
    } else if c.f71 == 4 {
        Ent { f71: 5, f26: 6, f69: 2, f46: 113, ..c }
    } else if c.f71 == 5 {
        countdown(c, 6)
    } else if c.f71 == 6 {
        sprite_ent(Ent { f71: 7, f26: 16, f69: 0, f46: 113, ..c }, 343, stats[343])
    } else if c.f71 == 7 {
        countdown(c, 8)
    } else if c.f71 == 8 {
        pick_spec(
            sprite_ent(Ent { f71: 9, f26: 0, f69: 3, f46: 22, ..c }, 342, stats[342]),
            k.0, k.1, k.2, k.3, ev.summon_draws.0, ev.summon_draws.1,
        )
    } else if c.f71 == 9 {
        countdown(c, 10)
    } else if c.f71 == 10 {
        sprite_ent(Ent { f71: 11, f26: 16, f46: 22, ..c }, 344, stats[344])
    } else if c.f71 == 11 {
        countdown(c, 2)
    } else if c.f71 == 12 {
        Ent { f71: 13, f26: 32, ..c }
    } else if c.f71 == 13 {
        let c1 = dec26(c);
        if c1.f26 <= 0 { sprite_ent(Ent { f71: 14, f26: 32, ..c1 }, 345, stats[345]) } else { c1 }
    } else if c.f71 == 14 {
        let c1 = dec26(c);
        if c1.f26 <= 0 { Ent { f71: 15, f26: 60, act_life: -1i32, ..c1 } } else { c1 }
    } else if c.f71 == 15 {
        let c1 = dec26(c);
        if c1.f26 <= 0 { Ent { flags: c1.flags | F_DEAD, ..c1 } } else { c1 }
    } else {
        c
    }
}

/// The death script only moves forward: from states 12..=15 the machine
/// never goes back to an earlier state, and a dying pyramid (life under
/// 10) in the dwell state 3 enters it.
pub proof fn death_script_advances(c: Ent, stats: Seq<crate::world::SpriteStats>, ctx: MobCtx, ev: DoomEvents, k: (nat, nat, nat, nat))
    ensures
        12 <= c.f71 <= 15 ==> c.f71 <= doom_step(c, stats, ctx, ev, k).f71 <= 15,
        c.f71 == 3 && c.act_life < 10 ==> doom_step(c, stats, ctx, ev, k).f71 == 12,
{
}

/// The kill-all pass over pool slots 1 up.
pub open spec fn kill_all_seq(s: Seq<Ent>) -> Seq<Ent> {
    Seq::new(s.len(), |j: int| if j >= 1 { kill_all_spec(s[j]) } else { s[j] })
}

/// The death script's global life reset: every occupied slot from 1 up
/// gets 140 life.
pub open spec fn life_reset_seq(s: Seq<Ent>) -> Seq<Ent> {
    Seq::new(s.len(), |j: int| if j >= 1 && s[j].class64 != 0 { Ent { max_life: 140, act_life: 140, ..s[j] } } else { s[j] })
}

/// The doomsday sphere the death script spawns: ground level, 70 life,
/// aimed at the player.
pub open spec fn meteor_write(p: Seq<Ent>, m: Option<usize>) -> Seq<Ent> {
    match m {
        Some(s) => p.update(s as int, Ent { z: 0, max_life: 70, act_life: 70, id24: PLAYER_TARGET, ..p[s as int] }),
        None => p,
    }
}

/// The apocalypse dome: 32 life, max 11, the player's.
pub open spec fn dome_write(p: Seq<Ent>, d: Option<usize>) -> Seq<Ent> {
    match d {
        Some(s) => p.update(s as int, Ent { act_life: 32, max_life: 11, id24: PLAYER_TARGET, ..p[s as int] }),
        None => p,
    }
}

/// The state-2 dwell before the clamp: `26 * life / max(max_life, 1)`
/// less the draw's low three bits.
pub open spec fn dwell_raw(c: Ent, draw: u32) -> int {
    let m = c.max_life as i32 as int;
    let m1 = if m < 1 { 1 } else { m };
    div_toward_zero(26 * c.act_life, m1) - (draw & 7u32) as int
}

/// The pool after the state machine's step (before the facing step),
/// from the pool `q` whose entity `i` is the pyramid as the machine
/// reads it, with cell chains from `map`; the activation (state 0)
/// wipes the footprint.
#[verifier::opaque]
pub open spec fn doom_pool(q: Seq<Ent>, i: int, stats: Seq<crate::world::SpriteStats>, ctx: MobCtx, ev: DoomEvents, map: Seq<u16>) -> Seq<Ent> {
    let c = q[i];
    let k = (pop_count(q, 19), pop_count(q, 0), pop_count(q, 25), pop_count(q, 21));
    if c.f71 == 15 {
        let kl = kill_all_seq(q);
        let p = kl.update(i, doom_step(kl[i], stats, ctx, ev, k));
        if c.f26 - 1 <= 0 { dome_write(p, ev.dome) } else { p }
    } else {
        let p = q.update(i, doom_step(c, stats, ctx, ev, k));
        if c.f71 == 0 {
            clear_tile_pool(p, chains_of(q, map, wipe_tiles(doom_tile(c).0, doom_tile(c).1)), i)
        } else if c.f71 == 12 {
            meteor_write(p, ev.meteor)
        } else if c.f71 == 14 && c.f26 - 1 <= 0 {
            life_reset_seq(kill_all_seq(p))
        } else {
            p
        }
    }
}

/// What the state machine asks of the tick's inputs: the countdown does
/// not underflow, the sprite rows exist, the dwell roll fits 32 bits,
/// the spawn slots are in the pool.
pub open spec fn doom_state_ok(q: Seq<Ent>, i: int, stats: Seq<crate::world::SpriteStats>, ev: DoomEvents) -> bool {
    let c = q[i];
    &&& doom_decrements(c) ==> c.f26 > i16::MIN
    &&& doom_sets_sprite(c) ==> stats.len() > 345
    &&& c.f71 == 2 ==> i32::MIN <= 26 * c.act_life <= i32::MAX && dwell_raw(c, ev.draw) >= i32::MIN
    &&& c.f71 == 12 && ev.meteor is Some ==> ev.meteor->0 < q.len()
    &&& c.f71 == 15 && ev.dome is Some ==> ev.dome->0 < q.len()
}

/// The sounds a pyramid tick raises at `i`: 10 each tick of state 14,
/// then the death rumble 63 in states 13..=15 on every fourth frame.
pub open spec fn doom_sounds(c: Ent, i: int) -> Seq<(u8, u16)> {
    let a: Seq<(u8, u16)> = if c.f71 == 14 { seq![(10u8, i as u16)] } else { seq![] };
    let b: Seq<(u8, u16)> = if 13 <= c.f71 <= 15 && c.f63 & 3 == 0 { seq![(63u8, i as u16)] } else { seq![] };
    a + b
}

/// The pyramid's tile.
pub open spec fn doom_tile(c: Ent) -> (u8, u8) {
    (center_spec(c.x) as u8, center_spec(c.y) as u8)
}

/// The attack pass the state calls (states 0 and 1), at the pyramid's
/// tile.
pub open spec fn doom_attack(c: Ent) -> Option<(u8, u8)> {
    if c.f71 <= 1 { Some(doom_tile(c)) } else { None }
}

/// The scenery the activation wipe (state 0) removes from pool `ents`
/// with cell chains from `map`.
pub open spec fn doom_freed(ents: Seq<Ent>, map: Seq<u16>, i: int, c: Ent) -> Seq<usize> {
    if c.f71 == 0 {
        clear_frees(ents, chains_of(ents, map, wipe_tiles(doom_tile(c).0, doom_tile(c).1)), i)
    } else {
        Seq::empty()
    }
}


/// The machine never reads or writes the pyramid's mailboxes: running it
/// on a pool whose pyramid carries other mailboxes gives the same pool
/// with those mailboxes.
pub proof fn lemma_doom_pool_mail(q: Seq<Ent>, i: int, stats: Seq<crate::world::SpriteStats>, ctx: MobCtx, ev: DoomEvents, map: Seq<u16>, m: [(u32, u16); 6])
    requires
        0 <= i < q.len(),
        q[i].f71 == 12 && ev.meteor is Some ==> ev.meteor->0 < q.len(),
        q[i].f71 == 15 && ev.dome is Some ==> ev.dome->0 < q.len(),
    ensures
        ({
            let p = doom_pool(q, i, stats, ctx, ev, map);
            &&& doom_pool(q.update(i, (Ent { mail: m, ..q[i] })), i, stats, ctx, ev, map) == p.update(i, (Ent { mail: m, ..p[i] }))
            &&& doom_pool(q, i, stats, ctx, ev, map).len() == q.len()
        }),
{
    reveal(doom_pool);
    let q2 = q.update(i, Ent { mail: m, ..q[i] });
    lemma_pop_count_update(q, i, q2[i], 19);
    lemma_pop_count_update(q, i, q2[i], 0);
    lemma_pop_count_update(q, i, q2[i], 25);
    lemma_pop_count_update(q, i, q2[i], 21);
    let k = (pop_count(q, 19), pop_count(q, 0), pop_count(q, 25), pop_count(q, 21));
    let c = q[i];
    let p = doom_pool(q, i, stats, ctx, ev, map);
    if c.f71 == 15 {
        let kl = kill_all_seq(q);
        let kl2 = kill_all_seq(q2);
        assert(kl2 =~= kl.update(i, Ent { mail: m, ..kl[i] }));
        assert(kl2[i] == Ent { mail: m, ..kl[i] });
        assert(q2[i].f71 == 15 && q2[i].f26 == c.f26);
        lemma_doom_step_mail(kl[i], m, stats, ctx, ev, k);
        let pp = kl.update(i, doom_step(kl[i], stats, ctx, ev, k));
        let pp2 = kl2.update(i, doom_step(kl2[i], stats, ctx, ev, k));
        assert(pp2 =~= pp.update(i, Ent { mail: m, ..pp[i] }));
        if c.f26 - 1 <= 0 {
            assert(dome_write(pp2, ev.dome) =~= dome_write(pp, ev.dome).update(i, Ent { mail: m, ..dome_write(pp, ev.dome)[i] }));
        }
        assert(doom_pool(q2, i, stats, ctx, ev, map) =~= p.update(i, Ent { mail: m, ..p[i] }));
    } else {
        lemma_doom_step_mail(c, m, stats, ctx, ev, k);
        let s1 = q.update(i, doom_step(c, stats, ctx, ev, k));
        let s2 = q2.update(i, doom_step(q2[i], stats, ctx, ev, k));
        assert(q2[i] == Ent { mail: m, ..c });
        assert(s2 =~= s1.update(i, Ent { mail: m, ..s1[i] }));
        if c.f71 == 0 {
            let tl = wipe_tiles(doom_tile(c).0, doom_tile(c).1);
            lemma_chains_of_same_links(q2, q, map, tl);
            let ch = chains_of(q, map, tl);
            assert(clear_tile_pool(s2, ch, i) =~= clear_tile_pool(s1, ch, i).update(i, Ent { mail: m, ..clear_tile_pool(s1, ch, i)[i] }));
        }
        if c.f71 == 12 {
            assert(meteor_write(s2, ev.meteor) =~= meteor_write(s1, ev.meteor).update(i, Ent { mail: m, ..meteor_write(s1, ev.meteor)[i] }));
        }
        if c.f71 == 14 && c.f26 - 1 <= 0 {
            assert(life_reset_seq(kill_all_seq(s2)) =~= life_reset_seq(kill_all_seq(s1)).update(i, Ent { mail: m, ..life_reset_seq(kill_all_seq(s1))[i] }));
        }
        assert(doom_pool(q2, i, stats, ctx, ev, map) =~= p.update(i, Ent { mail: m, ..p[i] }));
    }
}

/// The machine's step leaves the pyramid's mailboxes as they were.
pub proof fn lemma_doom_step_mail(c: Ent, m: [(u32, u16); 6], stats: Seq<crate::world::SpriteStats>, ctx: MobCtx, ev: DoomEvents, k: (nat, nat, nat, nat))
    ensures
        doom_step((Ent { mail: m, ..c }), stats, ctx, ev, k) == (Ent { mail: m, ..doom_step(c, stats, ctx, ev, k) }),
{
    let c2 = Ent { mail: m, ..c };
    if c.f71 == 8 {
        let s1 = sprite_ent(Ent { f71: 9, f26: 0, f69: 3, f46: 22, ..c }, 342, stats[342]);
        let s2 = sprite_ent(Ent { f71: 9, f26: 0, f69: 3, f46: 22, ..c2 }, 342, stats[342]);
        assert(s2 == Ent { mail: m, ..s1 });
        let p1 = pick_spec(s1, k.0, k.1, k.2, k.3, ev.summon_draws.0, ev.summon_draws.1);
        let p2 = pick_spec(s2, k.0, k.1, k.2, k.3, ev.summon_draws.0, ev.summon_draws.1);
        assert(p2 == Ent { mail: m, ..p1 });
    }
}

impl Gen {
    /// The pyramid's facing step on entity `i`: see [`face_spec`]. The
    /// ground height under it (`ground`) and the bearing from it to the
    /// player (`toward`) come from the engine's terrain and angle
    /// routines.
    pub fn mc2_pyramid_face(&mut self, i: usize, ctx: &MobCtx, ground: i32, toward: u16)
        requires
            i < old(self).ent@.len(),
            face_turns(old(self).ent@[i as int], ctx.pyaw) ==> old(self).ent@[i as int].f46 > i16::MIN,
        ensures
            final(self).ent@ == old(self).ent@.update(i as int, face_spec(old(self).ent@[i as int], ctx.pyaw, ground, toward)),
            old(self).frame_ent(final(self)),
    {
        let mut e = self.ent[i];
        e.z = ground as i16;
        if e.act_life < 10 {
            self.ent.set(i, e);
            return;
        }
        let bucket = ((e.f30.wrapping_sub(ctx.pyaw) >> 3) & 0xF0) >> 4;
        if bucket <= 2 {
            e.f30 = ctx.pyaw.wrapping_add(384) & 0x7FF;
            self.ent.set(i, e);
            return;
        }
        if bucket >= 0xD {
            e.f30 = ctx.pyaw.wrapping_add(6) & 0x7FF;
            self.ent.set(i, e);
            return;
        }
        if e.f69 == 0 {
            e.f34 = toward;
        } else if e.f69 == 2 {
            let side: u16 = if e.f63 & 1 == 0 { 512 } else { 1536 };
            e.f34 = ctx.pyaw.wrapping_add(side) & 0x7FF;
            e.f69 = 1;
        } else if e.f69 == 3 {
            e.f34 = e.f30;
        }
        let step = turn_step(e.f30, e.f34, e.f46);
        e.f30 = (e.f30 as i32 + step as i32) as u16 & 0x7FF;
        self.ent.set(i, e);
    }

    /// The death script's life reset: see [`life_reset_seq`].
    fn life_reset(&mut self)
        ensures
            final(self).ent@ == life_reset_seq(old(self).ent@),
            old(self).frame_ent(final(self)),
    {
        let n = self.ent.len();
        let mut j: usize = 1;
        while j < n
            invariant
                old(self).frame_ent(self),
                n == old(self).ent@.len(),
                1 <= j || n == 0,
                j <= n || n == 0,
                forall|k: int| 0 <= k < n ==> #[trigger] self.ent@[k] == if 1 <= k < j {
                    life_reset_seq(old(self).ent@)[k]
                } else {
                    old(self).ent@[k]
                },
            decreases n - j,
        {
            let mut e = self.ent[j];
            if e.class64 != 0 {
                e.max_life = 140;
                e.act_life = 140;
                self.ent.set(j, e);
            }
            j += 1;
        }
        assert(self.ent@ =~= life_reset_seq(old(self).ent@));
    }

    /// The number of creatures of model `m` in pool slots 1 up.
    pub fn mc2_pop_count(&self, m: u8) -> (r: usize)
        ensures
            r == pop_count(self.ent@, m),
    {
        let n = self.ent.len();
        if n == 0 {
            return 0;
        }
        let mut c: usize = 0;
        let mut j: usize = 1;
        while j < n
            invariant
                n == self.ent@.len(),
                1 <= j <= n,
                c == pop_count(self.ent@.subrange(0, j as int), m),
                c <= j,
            decreases n - j,
        {
            assert(self.ent@.subrange(0, j + 1).drop_last() =~= self.ent@.subrange(0, j as int));
            if self.ent[j].class64 == 5 && self.ent[j].model65 == m {
                c += 1;
            }
            j += 1;
        }
        assert(self.ent@.subrange(0, n as int) =~= self.ent@);
        c
    }

    /// The pyramid's damage intake on entity `i`: see
    /// [`pyramid_mail_spec`].
    pub fn mc2_pyramid_mail(&mut self, i: usize)
        requires
            i < old(self).ent@.len(),
            ({
                let e = old(self).ent@[i as int];
                e.f58 != 0 && e.mail[0].1 != 0 ==> e.act_life - pyramid_hit(e.mail[0].0) >= i32::MIN
            }),
        ensures
            old(self).frame_ent(final(self)),
            final(self).ent@.len() == old(self).ent@.len(),
            pyramid_mail_spec(final(self).ent@[i as int], old(self).ent@[i as int]),
            forall|j: int| 0 <= j < old(self).ent@.len() && j != i ==> #[trigger] final(self).ent@[j] == old(self).ent@[j],
    {
        let mut e = self.ent[i];
        if e.f58 != 0 {
            let (amt, src) = e.mail[0];
            if src != 0 {
                let a = amt as i32;
                let v = if a < 1 { 1 } else if a > 300 { 300 } else { a };
                e.act_life = e.act_life - v;
                e.f40 = src;
                e.mail[0] = (amt, 0);
            }
        }
        if e.act_life < 10 {
            e.act_life = 8;
        }
        self.ent.set(i, e);
    }
}

impl World {
    /// One tick of the doomsday pyramid at entity `i` (actions 80..=87).
    /// Off a doom level it dies at once. Otherwise a devour trip sets
    /// phase bit 0, the intake runs in states 2..=11 at life of at least
    /// 10, the state machine steps (see [`doom_pool`]), the death script
    /// (states 13..=15) rumbles every fourth frame, and the facing step
    /// ends the tick (see [`face_spec`]). What the engine's own passes
    /// and routines returned comes in `ev`. The activation wipes the
    /// footprint (see [`wipe_tiles`]); what it leaves to the engine (the
    /// scenery to free, the attack and summon passes this state calls)
    /// comes back in [`DoomCalls`].
    #[verifier::spinoff_prover]
    #[verifier::rlimit(60)]
    pub fn mc2_doomsday_tick(&mut self, i: usize, ctx: &MobCtx, ev: &DoomEvents) -> (calls: DoomCalls)
        requires
            old(self).g.wf(),
            i < old(self).g.ent@.len(),
            old(self).mc2_doom_level ==> ({
                let a = doom_armed(old(self).g.ent@[i as int], ev.devoured);
                let q = old(self).g.ent@.update(i as int, doom_core(a));
                let p = doom_pool(q, i as int, old(self).g.sprite_stats@, *ctx, *ev, old(self).g.map_entity@);
                &&& doom_mails(a) && a.f58 != 0 && a.mail[0].1 != 0 ==> a.act_life - pyramid_hit(a.mail[0].0) >= i32::MIN
                &&& doom_state_ok(q, i as int, old(self).g.sprite_stats@, *ev)
                &&& q[i as int].f71 == 3 && q[i as int].act_life >= 10 && q[i as int].f44 & 1 == 0 ==> near_fits(q[i as int], *ctx)
                &&& face_turns(p[i as int], ctx.pyaw) ==> p[i as int].f46 > i16::MIN
            }),
        ensures
            final(self).g.wf(),
            old(self).g.regs_eq(&final(self).g),
            final(self).g.t@ == old(self).g.t@,
            final(self).mc2_doom_level == old(self).mc2_doom_level,
            final(self).mc2_stagevars == old(self).mc2_stagevars,
            final(self).mc2_sv_held == old(self).mc2_sv_held,
            final(self).thing_models == old(self).thing_models,
            !old(self).mc2_doom_level ==> {
                let e = thin_reset(old(self).g.ent@[i as int]);
                &&& final(self).g.ent@ == old(self).g.ent@.update(i as int, Ent { flags: e.flags | F_DEAD, ..e })
                &&& final(self).g.sounds == old(self).g.sounds
                &&& final(self).mc2_doom_meter == old(self).mc2_doom_meter
                &&& final(self).mc2_apocalypse == old(self).mc2_apocalypse
                &&& calls.freed@ == Seq::<usize>::empty()
                &&& calls.attack is None
                &&& !calls.summon
            },
            old(self).mc2_doom_level ==> {
                let a = doom_armed(old(self).g.ent@[i as int], ev.devoured);
                let c = doom_core(a);
                let p = doom_pool(old(self).g.ent@.update(i as int, c), i as int, old(self).g.sprite_stats@, *ctx, *ev, old(self).g.map_entity@);
                let fm = final(self).g.ent@[i as int].mail;
                &&& fm@ == if doom_mails(a) && a.f58 != 0 && a.mail[0].1 != 0 {
                    a.mail@.update(0, (a.mail[0].0, 0u16))
                } else {
                    a.mail@
                }
                &&& final(self).g.ent@ == p.update(i as int, Ent { mail: fm, ..face_spec(p[i as int], ctx.pyaw, ev.ground, ev.toward) })
                &&& final(self).g.sounds@ == old(self).g.sounds@ + doom_sounds(c, i as int)
                &&& final(self).mc2_doom_meter == if c.f71 == 0 {
                    60u8
                } else if c.f71 == 15 && c.f26 - 1 <= 0 {
                    0u8
                } else {
                    old(self).mc2_doom_meter
                }
                &&& final(self).mc2_apocalypse == if c.f71 == 15 && c.f26 - 1 <= 0 {
                    ev.dome is Some
                } else {
                    old(self).mc2_apocalypse
                }
                &&& calls.freed@ == doom_freed(old(self).g.ent@, old(self).g.map_entity@, i as int, c)
                &&& calls.attack == doom_attack(c)
                &&& calls.summon == (c.f71 == 9)
            },
    {
        let ghost old_ents = self.g.ent@;
        let mut e = self.g.ent[i];
        if (81 <= e.tick70 && e.tick70 <= 83) || e.tick70 == 86 || e.tick70 == 87 {
            e.tick70 = 80;
        }
        if !self.mc2_doom_level {
            e.flags = e.flags | F_DEAD;
            self.g.ent.set(i, e);
            return DoomCalls { freed: Vec::new(), attack: None, summon: false };
        }
        if ev.devoured {
            e.f44 = e.f44 | 1;
        }
        self.g.ent.set(i, e);
        let ghost a = e;
        if e.f71 > 1 && !(12 <= e.f71 && e.f71 <= 15) && e.act_life >= 10 {
            self.g.mc2_pyramid_mail(i);
        }
        let c = self.g.ent[i];
        let ghost q = old_ents.update(i as int, doom_core(a));
        proof {
            assert(c == Ent { mail: c.mail, ..doom_core(a) });
            assert(self.g.ent@ =~= q.update(i as int, Ent { mail: c.mail, ..q[i as int] }));
            lemma_doom_pool_mail(q, i as int, self.g.sprite_stats@, *ctx, *ev, self.g.map_entity@, c.mail);
        }
        let cx = center_byte(c.x);
        let cy = center_byte(c.y);
        let ghost pre = self.g.ent@;
        let freed = self.doom_state(i, ctx, ev);
        proof {
            if c.f71 == 0 {
                let tl = wipe_tiles(cx, cy);
                lemma_chains_of_same_links(pre, old_ents, self.g.map_entity@, tl);
                lemma_chains_of_in_pool(old_ents, self.g.map_entity@, tl);
                let ch = chains_of(old_ents, self.g.map_entity@, tl);
                lemma_frees_concat(old_ents, pre, Seq::<int>::empty(), ch, i as int);
                assert(Seq::<int>::empty() + ch =~= ch);
            }
        }
        if 13 <= c.f71 && c.f71 <= 15 && c.f63 & 3 == 0 {
            self.g.snd(63, i);
        }
        self.g.mc2_pyramid_face(i, ctx, ev.ground, ev.toward);
        DoomCalls { freed, attack: if c.f71 <= 1 { Some((cx, cy)) } else { None }, summon: c.f71 == 9 }
    }

    /// The pyramid's state machine on entity `i` once the intake has run:
    /// see [`doom_pool`]; state 14 raises sound 10, state 0 sets the
    /// doomsday meter, state 15's end clears it and raises the apocalypse
    /// when the dome came up.
    #[verifier::spinoff_prover]
    #[verifier::rlimit(80)]
    fn doom_state(&mut self, i: usize, ctx: &MobCtx, ev: &DoomEvents) -> (freed: Vec<usize>)
        requires
            old(self).g.wf(),
            i < old(self).g.ent@.len(),
            doom_state_ok(old(self).g.ent@, i as int, old(self).g.sprite_stats@, *ev),
        ensures
            final(self).g.wf(),
            old(self).g.regs_eq(&final(self).g),
            final(self).g.t@ == old(self).g.t@,
            final(self).g.ent@ == doom_pool(old(self).g.ent@, i as int, old(self).g.sprite_stats@, *ctx, *ev, old(self).g.map_entity@),
            freed@ == doom_freed(old(self).g.ent@, old(self).g.map_entity@, i as int, old(self).g.ent@[i as int]),
            final(self).g.sounds@ == old(self).g.sounds@ + (if old(self).g.ent@[i as int].f71 == 14 {
                seq![(10u8, i as u16)]
            } else {
                Seq::<(u8, u16)>::empty()
            }),
            final(self).mc2_doom_meter == if old(self).g.ent@[i as int].f71 == 0 {
                60u8
            } else if old(self).g.ent@[i as int].f71 == 15 && old(self).g.ent@[i as int].f26 - 1 <= 0 {
                0u8
            } else {
                old(self).mc2_doom_meter
            },
            final(self).mc2_apocalypse == if old(self).g.ent@[i as int].f71 == 15 && old(self).g.ent@[i as int].f26 - 1 <= 0 {
                ev.dome is Some
            } else {
                old(self).mc2_apocalypse
            },
            final(self).mc2_doom_level == old(self).mc2_doom_level,
            final(self).mc2_stagevars == old(self).mc2_stagevars,
            final(self).mc2_sv_held == old(self).mc2_sv_held,
            final(self).thing_models == old(self).thing_models,
    {
        reveal(doom_pool);
        let ghost q = self.g.ent@;
        let ghost stats = self.g.sprite_stats@;
        let ghost map = self.g.map_entity@;
        let mut freed: Vec<usize> = Vec::new();
        let mut e = self.g.ent[i];
        let st = e.f71;
        if st == 0 {
            e.f71 = 1;
            e.f44 = 8;
            e.f26 = 15;
            e.f46 = 22;
            e.f146 = PLAYER_TARGET;
            self.g.ent.set(i, e);
            self.mc2_doom_meter = 60;
            let cx = center_byte(e.x);
            let cy = center_byte(e.y);
            let ghost p1 = self.g.ent@;
            freed = self.g.mc2_pyramid_wipe(cx, cy, i);
            proof {
                let tl = wipe_tiles(cx, cy);
                lemma_chains_of_same_links(p1, q, map, tl);
                lemma_chains_of_in_pool(q, map, tl);
                let ch = chains_of(q, map, tl);
                lemma_frees_concat(q, p1, Seq::<int>::empty(), ch, i as int);
                assert(Seq::<int>::empty() + ch =~= ch);
            }
            proof { assert(self.g.ent@ =~= doom_pool(q, i as int, stats, *ctx, *ev, map)); }
        } else if st == 1 {
            if ev.attacked {
                e.f71 = 4;
                e.f44 = e.f44 | 0x80;
                self.g.ent.set(i, e);
            }
            proof { assert(self.g.ent@ =~= doom_pool(q, i as int, stats, *ctx, *ev, map)); }
        } else if st == 2 {
            let m = e.max_life as i32;
            let m1: i32 = if m < 1 { 1 } else { m };
            let lf = 26 * e.act_life;
            let qd = lf / m1;
            assert(qd as int == div_toward_zero(26 * e.act_life, m1 as int));
            let dr = ev.draw;
            assert(dr & 7 <= 7) by (bit_vector);
            let v = qd - (ev.draw & 7) as i32;
            let v2: i32 = if v < 3 { 3 } else if v > 26 { 26 } else { v };
            e.f26 = v2 as i16;
            e.f71 = 3;
            e.f69 = 0;
            e.f46 = 22;
            self.g.ent.set(i, e);
            self.g.set_sprite(i, 341);
            proof { assert(self.g.ent@ =~= doom_pool(q, i as int, stats, *ctx, *ev, map)); }
        } else if st == 3 {
            if e.act_life < 10 {
                e.f71 = 12;
            } else if e.f44 & 1 != 0 {
                e.f71 = 6;
            } else {
                e.f26 = e.f26 - 1;
                let dx = ctx.px.wrapping_sub(e.x) as i16 as i64;
                let dy = ctx.py.wrapping_sub(e.y) as i16 as i64;
                assert(dx * dx <= 0x4000_0000 && dy * dy <= 0x4000_0000) by (nonlinear_arith)
                    requires
                        -32768 <= dx <= 32767,
                        -32768 <= dy <= 32767,
                ;
                assert(0 <= dx * dx && 0 <= dy * dy) by (nonlinear_arith);
                let near = dx * dx + dy * dy < 0x2000 * 0x2000;
                if near && e.f26 <= 0 {
                    e.f71 = if ev.draw % 0xC < 9 { 4 } else { 6 };
                }
            }
            self.g.ent.set(i, e);
            proof { assert(self.g.ent@ =~= doom_pool(q, i as int, stats, *ctx, *ev, map)); }
        } else if st == 4 {
            e.f71 = 5;
            e.f26 = 6;
            e.f69 = 2;
            e.f46 = 113;
            self.g.ent.set(i, e);
            proof { assert(self.g.ent@ =~= doom_pool(q, i as int, stats, *ctx, *ev, map)); }
        } else if st == 5 || st == 7 || st == 9 || st == 11 {
            e.f26 = e.f26 - 1;
            if e.f26 <= 0 {
                e.f71 = if st == 5 { 6 } else if st == 7 { 8 } else if st == 9 { 10 } else { 2 };
            }
            self.g.ent.set(i, e);
            proof { assert(self.g.ent@ =~= doom_pool(q, i as int, stats, *ctx, *ev, map)); }
        } else if st == 6 {
            e.f71 = 7;
            e.f26 = 16;
            e.f69 = 0;
            e.f46 = 113;
            self.g.ent.set(i, e);
            self.g.set_sprite(i, 343);
            proof { assert(self.g.ent@ =~= doom_pool(q, i as int, stats, *ctx, *ev, map)); }
        } else if st == 8 {
            e.f71 = 9;
            e.f26 = 0;
            e.f69 = 3;
            e.f46 = 22;
            self.g.ent.set(i, e);
            self.g.set_sprite(i, 342);
            let ghost q2 = self.g.ent@;
            proof {
                lemma_pop_count_update(q, i as int, q2[i as int], 19);
                lemma_pop_count_update(q, i as int, q2[i as int], 0);
                lemma_pop_count_update(q, i as int, q2[i as int], 25);
                lemma_pop_count_update(q, i as int, q2[i as int], 21);
                assert(q.update(i as int, q2[i as int]) =~= q2);
            }
            self.mc2_pyramid_pick_summon(i, ev.summon_draws.0, ev.summon_draws.1);
            proof { assert(self.g.ent@ =~= doom_pool(q, i as int, stats, *ctx, *ev, map)); }
        } else if st == 10 {
            e.f71 = 11;
            e.f26 = 16;
            e.f46 = 22;
            self.g.ent.set(i, e);
            self.g.set_sprite(i, 344);
            proof { assert(self.g.ent@ =~= doom_pool(q, i as int, stats, *ctx, *ev, map)); }
        } else if st == 12 {
            e.f71 = 13;
            e.f26 = 32;
            self.g.ent.set(i, e);
            if let Some(sl) = ev.meteor {
                let mut m = self.g.ent[sl];
                m.z = 0;
                m.max_life = 70;
                m.act_life = 70;
                m.id24 = PLAYER_TARGET;
                self.g.ent.set(sl, m);
            }
            proof { assert(self.g.ent@ =~= doom_pool(q, i as int, stats, *ctx, *ev, map)); }
        } else if st == 13 {
            e.f26 = e.f26 - 1;
            if e.f26 <= 0 {
                e.f71 = 14;
                e.f26 = 32;
                self.g.ent.set(i, e);
                self.g.set_sprite(i, 345);
            } else {
                self.g.ent.set(i, e);
            }
            proof { assert(self.g.ent@ =~= doom_pool(q, i as int, stats, *ctx, *ev, map)); }
        } else if st == 14 {
            self.g.snd(10, i);
            e.f26 = e.f26 - 1;
            if e.f26 <= 0 {
                e.f71 = 15;
                e.f26 = 60;
                e.act_life = -1;
                self.g.ent.set(i, e);
                self.mc2_kill_all_creatures();
                self.g.life_reset();
            } else {
                self.g.ent.set(i, e);
            }
            proof { assert(self.g.ent@ =~= doom_pool(q, i as int, stats, *ctx, *ev, map)); }
        } else if st == 15 {
            self.mc2_kill_all_creatures();
            let mut k = self.g.ent[i];
            k.f26 = k.f26 - 1;
            self.g.ent.set(i, k);
            if k.f26 <= 0 {
                self.mc2_apocalypse = false;
                if let Some(d) = ev.dome {
                    let mut m = self.g.ent[d];
                    m.act_life = 32;
                    m.max_life = 11;
                    m.id24 = PLAYER_TARGET;
                    self.g.ent.set(d, m);
                    self.mc2_apocalypse = true;
                }
                self.mc2_doom_meter = 0;
                let mut k2 = self.g.ent[i];
                k2.flags = k2.flags | F_DEAD;
                self.g.ent.set(i, k2);
            }
            proof { assert(self.g.ent@ =~= doom_pool(q, i as int, stats, *ctx, *ev, map)); }
        }
        proof {
            assert(self.g.ent@ =~= doom_pool(q, i as int, stats, *ctx, *ev, map));
        }
        freed
    }

    /// The summon pick of pyramid `i`: see [`pick_spec`], with the pool's
    /// live counts; `d1` and `d2` are the two draws from the pyramid's
    /// random stream (the second read only when the first roll picks
    /// nothing).
    pub fn mc2_pyramid_pick_summon(&mut self, i: usize, d1: u32, d2: u32)
        requires
            i < old(self).g.ent@.len(),
        ensures
            final(self).g.ent@ == old(self).g.ent@.update(
                i as int,
                pick_spec(
                    old(self).g.ent@[i as int],
                    pop_count(old(self).g.ent@, 19),
                    pop_count(old(self).g.ent@, 0),
                    pop_count(old(self).g.ent@, 25),
                    pop_count(old(self).g.ent@, 21),
                    d1,
                    d2,
                ),
            ),
            old(self).g.frame_ent(&final(self).g),
            final(self).mc2_stagevars == old(self).mc2_stagevars,
            final(self).mc2_sv_held == old(self).mc2_sv_held,
            final(self).thing_models == old(self).thing_models,
            final(self).mc2_doom_level == old(self).mc2_doom_level,
            final(self).mc2_doom_meter == old(self).mc2_doom_meter,
            final(self).mc2_apocalypse == old(self).mc2_apocalypse,
    {
        let mut e = self.g.ent[i];
        e.f44 = e.f44 & 0xFFFD;
        let mut laser = false;
        let mut picked: u8 = 0;
        if e.f44 & 1 != 0 {
            e.f44 = e.f44 & 0xFFFE;
            if e.f58 != 0 {
                laser = true;
            }
        } else {
            e.f44 = e.f44 | 2;
            let v4 = d1 % 0x46;
            if 3 <= v4 && v4 <= 6 {
                laser = true;
            } else if 40 <= v4 && v4 <= 48 && self.g.mc2_pop_count(19) < 28 {
                picked = 6;
                e.f38 = 8;
                e.f26 = 8;
                e.f50 = 256;
            } else if 49 <= v4 && v4 <= 58 && self.g.mc2_pop_count(0) < 4 {
                picked = 3;
                e.f38 = 3;
                e.f50 = 682;
            } else if 59 <= v4 && v4 <= 68 && self.g.mc2_pop_count(25) < 6 {
                picked = 5;
            } else if v4 >= 69 && self.g.mc2_pop_count(21) < 12 {
                picked = 4;
            }
            if picked == 0 && !laser {
                let w = d2 % 0x1D;
                if w <= 7 {
                    picked = 1;
                    e.f38 = 10;
                } else if w <= 17 {
                    picked = 2;
                    e.f38 = 8;
                } else if w <= 25 {
                    picked = 9;
                    e.f38 = 5;
                } else if w <= 27 {
                    picked = 8;
                    e.f38 = 5;
                } else {
                    laser = true;
                }
            }
        }
        if laser {
            picked = 7;
            e.f38 = 24;
            e.f26 = 32;
        }
        e.f68 = picked;
        self.g.ent.set(i, e);
    }

    /// Kill every pool creature (from slot 1 up): see
    /// [`kill_all_spec`].
    pub fn mc2_kill_all_creatures(&mut self)
        ensures
            old(self).g.frame_ent(&final(self).g),
            old(self).g.ent@.len() >= 1 ==> final(self).g.ent@[0] == old(self).g.ent@[0],
            forall|j: int| 1 <= j < old(self).g.ent@.len() ==> #[trigger] final(self).g.ent@[j] == kill_all_spec(old(self).g.ent@[j]),
            final(self).mc2_stagevars == old(self).mc2_stagevars,
            final(self).mc2_sv_held == old(self).mc2_sv_held,
            final(self).thing_models == old(self).thing_models,
            final(self).mc2_doom_level == old(self).mc2_doom_level,
            final(self).mc2_doom_meter == old(self).mc2_doom_meter,
            final(self).mc2_apocalypse == old(self).mc2_apocalypse,
    {
        let n = self.g.ent.len();
        if n == 0 {
            return;
        }
        let mut j: usize = 1;
        while j < n
            invariant
                old(self).g.frame_ent(&self.g),
                n == old(self).g.ent@.len(),
                1 <= j <= n,
                self.g.ent@[0] == old(self).g.ent@[0],
                forall|k: int| 1 <= k < n ==> #[trigger] self.g.ent@[k] == if k < j { kill_all_spec(old(self).g.ent@[k]) } else { old(self).g.ent@[k] },
                self.mc2_stagevars == old(self).mc2_stagevars,
                self.mc2_sv_held == old(self).mc2_sv_held,
                self.thing_models == old(self).thing_models,
                self.mc2_doom_level == old(self).mc2_doom_level,
                self.mc2_doom_meter == old(self).mc2_doom_meter,
                self.mc2_apocalypse == old(self).mc2_apocalypse,
            decreases n - j,
        {
            let mut e = self.g.ent[j];
            if e.class64 != 5 || e.model65 == 10 {
            } else if e.model65 == 27 {
                e.tick70 = 221;
                e.f38 = PLAYER_TARGET;
                self.g.ent.set(j, e);
            } else {
                e.act_life = -1;
                e.f38 = PLAYER_TARGET;
                self.g.ent.set(j, e);
            }
            j += 1;
        }
    }
}


/// The new pyramid in slot content `e`: class 5 model 10 at action 80,
/// 300000 life (full) and half of it as mana, vulnerable, phase bits 0,
/// `f56` 1, row 107, scan phase 64, xtype 3, countdown and state 0,
/// ordinal `ord`, sprite-param row 341 with its extents `s`, then yaw
/// extent 512, half-extents 1024 and fov 1280.
pub open spec fn pyramid_spawn_spec(e: Ent, ord: u8, s: (u16, u16)) -> Ent {
    let e1 = Ent {
        class64: 5,
        model65: 10,
        tick70: 80,
        max_life: 300_000,
        act_life: 300_000,
        f28: 1,
        f44: 0,
        f56: 1,
        row156: 107,
        f58: 64,
        f66: 3,
        f26: 0,
        f71: 0,
        f140: 150_000,
        f63: ord,
        ..e
    };
    Ent { f78: 512, f80: 1024, f82: 1024, f84: 1280, ..crate::mc2::mobs::mc2_sprite_ent(e1, 341, s) }
}

impl Gen {
    /// Spawn the doomsday pyramid (see [`pyramid_spawn_spec`]) into
    /// `slot`, the pool slot the engine's allocator handed out (`None`
    /// when the pool is full). `ord` is the model's spawn ordinal from the
    /// engine's counter and `ground` the ground height under (x, y): the
    /// pyramid stands on the ground. Returns the slot and the position
    /// `(x, y, ground)` at which the engine places it in its map cell.
    pub fn mc2_spawn_doomsday(&mut self, x: u16, y: u16, ord: u8, ground: i32, slot: Option<usize>) -> (r: Option<(usize, (u16, u16, i16))>)
        requires
            slot matches Some(i) ==> i < old(self).ent@.len(),
            crate::mc2::mobs::params_ok(*old(self), 341),
        ensures
            r == match slot {
                Some(i) => Some((i, (x, y, ground as i16))),
                None => None::<(usize, (u16, u16, i16))>,
            },
            old(self).frame_ent(final(self)),
            r is None ==> final(self).ent == old(self).ent,
            r matches Some(p) ==> final(self).ent@ == old(self).ent@.update(p.0 as int, pyramid_spawn_spec(
                old(self).ent@[p.0 as int],
                ord,
                crate::mc2::mobs::params_spec(*old(self), 341),
            )),
    {
        let i = match slot {
            Some(i) => i,
            None => return None,
        };
        let mut e = self.ent[i];
        e.class64 = 5;
        e.model65 = 10;
        e.tick70 = 80;
        e.max_life = 300_000;
        e.f28 = 1;
        e.f44 = 0;
        e.f56 = 1;
        e.row156 = 107;
        e.f58 = 64;
        e.f66 = 3;
        e.f26 = 0;
        e.f71 = 0;
        self.ent.set(i, e);
        self.mc2_set_mana_half(i);
        let mut e = self.ent[i];
        e.f63 = ord;
        e.act_life = e.max_life as i32;
        self.ent.set(i, e);
        self.mc2_set_sprite(i, 341);
        let mut e = self.ent[i];
        e.f78 = 512;
        self.ent.set(i, e);
        self.mc2_shift_rot(i, 1024, 1280);
        Some((i, (x, y, ground as i16)))
    }
}

} // verus!
