use std::collections::HashMap;

use mgc_sim::mc2::castle::{
    mc2_castle_cap, mc2_castle_hp, mc2_castle_quota, F_UPGRADE_ARMED,
};
use mgc_sim::world::{tile, BuildDef, Ent, Gen, Planes, PLAYER_TARGET};

fn gen(n: usize) -> Gen {
    Gen {
        ent: vec![Ent::default(); n],
        t: Planes {
            height: vec![0; 65536],
            tile_type: vec![0; 65536],
            shading: vec![0; 65536],
            angle: vec![0; 65536],
            ceiling: vec![],
        },
        map_entity: vec![0; 65536],
        mc2_night_shade: false,
        castle_alert: 0,
        player_aggro: 0,
        player_danger: 0,
        player_invisible: false,
        kills: 0,
        mc2_wanted: HashMap::new(),
        rival_ents: vec![],
        mc2_life_scale: vec![0x100],
        build_tab: vec![],
        mc2_sprite_ext: vec![],
        sprite_params: vec![],
        sprite_stats: vec![],
        sounds: vec![],
        spawn_count: vec![0; 32],
    }
}

fn castle_at(tx: u16, ty: u16, lvl: i16) -> Ent {
    Ent { class64: 10, model65: 45, x: tx << 8, y: ty << 8, f26: lvl, id24: 3, ..Ent::default() }
}

#[test]
fn level_tables() {
    let caps: Vec<i32> = (0..8).map(mc2_castle_cap).collect();
    assert_eq!(caps, vec![5000, 8500, 18000, 38800, 78600, 158200, 317400, 300_000_000]);
    let hps: Vec<u32> = (0..8).map(mc2_castle_hp).collect();
    assert_eq!(hps, vec![0, 20000, 40000, 40000, 60000, 60000, 80000, 80000]);
    let quotas: Vec<(usize, usize)> = (0..9).map(mc2_castle_quota).collect();
    assert_eq!(
        quotas,
        vec![(0, 0), (1, 0), (1, 0), (1, 4), (2, 6), (2, 14), (3, 18), (3, 34), (0, 0)]
    );
    assert_eq!(mc2_castle_quota(-1), (0, 0));
}

#[test]
fn intake_survived_hit_on_the_player_castle_alerts() {
    let mut g = gen(2);
    g.ent[1] = Ent { act_life: 100, id24: PLAYER_TARGET, ..Ent::default() };
    g.ent[1].mail[0] = (30, 7);
    assert_eq!(g.mc2_castle_intake(1), 1);
    assert_eq!((g.ent[1].act_life, g.ent[1].mail[0]), (70, (0, 0)));
    assert_eq!(g.castle_alert, 4);
    // Quiet tick.
    assert_eq!(g.mc2_castle_intake(1), 0);
}

#[test]
fn intake_lethal_hit_remembers_the_sender() {
    let mut g = gen(2);
    g.ent[1] = Ent { act_life: 10, id24: 5, ..Ent::default() };
    g.ent[1].mail[0] = (30, 7);
    assert_eq!(g.mc2_castle_intake(1), 2);
    assert_eq!((g.ent[1].act_life, g.ent[1].f36, g.ent[1].mail[0]), (-20, 7, (30, 0)));
    assert_eq!(g.castle_alert, 0);
    // Already dead: lethal and untouched.
    let before = g.ent[1];
    assert_eq!(g.mc2_castle_intake(1), 2);
    assert_eq!(g.ent[1], before);
}

#[test]
fn intake_self_sent_upgrade_request_arms_below_level_seven() {
    let mut g = gen(2);
    g.ent[1] = Ent { act_life: 10, id24: 5, f26: 3, ..Ent::default() };
    g.ent[1].mail[5] = (1, 5);
    assert_eq!(g.mc2_castle_intake(1), 0);
    assert_eq!(g.ent[1].flags & F_UPGRADE_ARMED, F_UPGRADE_ARMED);
    assert_eq!(g.ent[1].mail[5], (0, 0));
    // Someone else's request, or level 7: cleared, not armed.
    g.ent[1].flags = 0;
    g.ent[1].mail[5] = (1, 6);
    g.mc2_castle_intake(1);
    assert_eq!((g.ent[1].flags, g.ent[1].mail[5]), (0, (0, 0)));
    g.ent[1].f26 = 7;
    g.ent[1].mail[5] = (1, 5);
    g.mc2_castle_intake(1);
    assert_eq!(g.ent[1].flags, 0);
}

#[test]
fn ladder_sets_life_and_capacity_from_the_level() {
    let mut g = gen(2);
    g.ent[1] = Ent { act_life: -5000, f26: 2, id24: 9, ..Ent::default() };
    g.mc2_castle_ladder(1);
    assert_eq!((g.ent[1].max_life, g.ent[1].act_life, g.ent[1].f136), (40000, 35000, 18000));
    // The overkill debt is capped at half the new max.
    g.ent[1].act_life = -30000;
    g.mc2_castle_ladder(1);
    assert_eq!(g.ent[1].act_life, 20000);
    // The owner's own life scale.
    g.rival_ents = vec![0, 9];
    g.mc2_life_scale = vec![0x100, 0x80];
    g.ent[1].act_life = 1;
    g.mc2_castle_ladder(1);
    assert_eq!((g.ent[1].max_life, g.ent[1].act_life), (20000, 20000));
    // Level 0 has no life: only the capacity moves.
    g.ent[1] = Ent { act_life: 77, max_life: 5, f26: 0, ..Ent::default() };
    g.mc2_castle_ladder(1);
    assert_eq!((g.ent[1].max_life, g.ent[1].act_life, g.ent[1].f136), (5, 77, 5000));
    // Levels past 7 clamp.
    g.ent[1].f26 = 12;
    g.mc2_castle_ladder(1);
    assert_eq!((g.ent[1].max_life, g.ent[1].f136), (80000, 300_000_000));
}

#[test]
fn extents_from_the_footprint_row() {
    let mut g = gen(2);
    g.build_tab = vec![BuildDef { w: 4, h: 6, offset: 0 }];
    g.mc2_castle_extents(1, 0);
    assert_eq!((g.ent[1].f80, g.ent[1].f82, g.ent[1].f84), (1152, 1408, 0x4000));
    let before = g.ent[1];
    g.mc2_castle_extents(1, 1);
    assert_eq!(g.ent[1], before);
}

#[test]
fn preclear_kills_touching_buildings_of_the_next_box() {
    let mut g = gen(5);
    g.build_tab = vec![BuildDef { w: 4, h: 4, offset: 0 }, BuildDef { w: 6, h: 6, offset: 0 }];
    g.ent[1] = castle_at(128, 128, 0);
    // Next half-extent 1408; a building with half-extent 100 touches at
    // exactly 1508.
    g.ent[2] = Ent { class64: 10, model65: 45, x: (128 << 8) + 1508, y: 128 << 8, f80: 100, act_life: 9, f46: 4, ..Ent::default() };
    g.ent[3] = Ent { class64: 10, model65: 45, x: (128 << 8) + 1509, y: 128 << 8, f80: 100, act_life: 9, f46: 4, ..Ent::default() };
    g.ent[4] = Ent { class64: 10, model65: 2, x: 128 << 8, y: 128 << 8, act_life: 9, ..Ent::default() };
    g.mc2_castle_preclear(1);
    assert_eq!((g.ent[2].act_life, g.ent[2].f46), (-1, 0));
    assert_eq!((g.ent[3].act_life, g.ent[3].f46), (9, 4));
    assert_eq!(g.ent[4].act_life, 9);
    assert_eq!(g.ent[1].act_life, 0);
}

#[test]
fn space_check_reads_only_the_new_ring() {
    let mut g = gen(3);
    g.build_tab = vec![BuildDef { w: 4, h: 4, offset: 0 }, BuildDef { w: 6, h: 6, offset: 0 }];
    g.ent[1] = castle_at(128, 128, 0);
    assert!(g.mc2_castle_space_ok(1));
    // The current footprint's own cells are not re-checked.
    g.t.angle[tile(128, 128)] = 0x80;
    assert!(g.mc2_castle_space_ok(1));
    // A built cell on the ring blocks; so does one on the far side.
    g.t.angle[tile(123, 123)] = 0x80;
    assert!(!g.mc2_castle_space_ok(1));
    g.t.angle[tile(123, 123)] = 0;
    g.t.angle[tile(132, 127)] = 0x80;
    assert!(!g.mc2_castle_space_ok(1));
    g.t.angle[tile(132, 127)] = 0;
    // Bit 3 only blocks on caves.
    g.t.angle[tile(127, 132)] = 8;
    assert!(g.mc2_castle_space_ok(1));
    g.t.ceiling = vec![0; 65536];
    assert!(!g.mc2_castle_space_ok(1));
    g.t.ceiling = vec![];
    g.t.angle[tile(127, 132)] = 0;
    // A live class-10 model-2 object inside the next box blocks.
    g.ent[2] = Ent { class64: 10, model65: 2, x: 130 << 8, y: 128 << 8, ..Ent::default() };
    assert!(!g.mc2_castle_space_ok(1));
    g.ent[2].flags = 0x400;
    assert!(g.mc2_castle_space_ok(1));
}

#[test]
fn owner_bank_sums_positive_mana_of_live_buildings() {
    let mut g = gen(6);
    g.ent[1] = Ent { class64: 10, model65: 45, f144: 3, f140: 100, ..Ent::default() };
    g.ent[2] = Ent { class64: 10, model65: 45, f144: 3, f140: -50, ..Ent::default() };
    g.ent[3] = Ent { class64: 10, model65: 45, f144: 4, f140: 1000, ..Ent::default() };
    g.ent[4] = Ent { class64: 10, model65: 45, f144: 3, f140: 1000, flags: 0x400, ..Ent::default() };
    g.ent[5] = Ent { class64: 10, model65: 45, f144: 3, f140: 23, ..Ent::default() };
    assert_eq!(g.mc2_owner_bank(3), 123);
    g.ent[3].f144 = 3;
    g.ent[3].f140 = i32::MAX;
    assert_eq!(g.mc2_owner_bank(3), i32::MAX);
}

#[test]
fn absorb_lands_the_first_overlapping_sphere_below_capacity() {
    let mut g = gen(4);
    g.ent[1] = Ent { class64: 10, model65: 45, id24: 3, x: 1000, y: 1000, f80: 200, f82: 200, f140: 10, f136: 100, ..Ent::default() };
    g.ent[2] = Ent { class64: 10, model65: 39, f144: 3, x: 5000, y: 1000, f140: 40, ..Ent::default() };
    g.ent[3] = Ent { class64: 10, model65: 39, f144: 3, x: 1100, y: 1000, f80: 10, f82: 10, f140: 40, ..Ent::default() };
    g.mc2_castle_absorb(1);
    assert_eq!(g.ent[1].f140, 50);
    assert_eq!(g.ent[3].flags & 0x400, 0x400);
    assert_eq!(g.ent[2].flags, 0);
    // At capacity nothing lands.
    g.ent[1].f140 = 100;
    g.ent[3].flags = 0;
    g.mc2_castle_absorb(1);
    assert_eq!((g.ent[1].f140, g.ent[3].flags), (100, 0));
}

#[test]
fn free_stages_despawns_the_castles_pieces() {
    let mut g = gen(5);
    g.ent[1] = Ent { class64: 10, model65: 45, f52: 3, ..Ent::default() };
    g.ent[2] = Ent { class64: 10, model65: 79, f146: 1, ..Ent::default() };
    g.ent[3] = Ent { class64: 10, model65: 79, f146: 2, ..Ent::default() };
    g.ent[4] = Ent { class64: 10, model65: 79, f146: 1, ..Ent::default() };
    g.mc2_castle_free_stages(1);
    assert_eq!(g.ent[1].f52, 0);
    assert_eq!(g.ent[2].flags & 0x400, 0x400);
    assert_eq!(g.ent[3].flags & 0x400, 0);
    assert_eq!(g.ent[4].flags & 0x400, 0x400);
}

#[test]
fn ladder_keeps_the_scaled_life_to_32_bits() {
    let mut g = gen(2);
    // A large scale: the product floors, then keeps its low 32 bits.
    g.mc2_life_scale = vec![0x7FFF_FFFF];
    g.ent[1] = Ent { act_life: 1, f26: 7, ..Ent::default() };
    g.mc2_castle_ladder(1);
    assert_eq!((g.ent[1].max_life, g.ent[1].act_life), (1_073_741_511, 1_073_741_511));
    // A negative scale: the shift floors, the max wraps, and the debt
    // cap (half the max read as signed) rounds toward zero.
    g.mc2_life_scale = vec![-256];
    g.ent[1] = Ent { act_life: -5, f26: 7, ..Ent::default() };
    g.mc2_castle_ladder(1);
    assert_eq!((g.ent[1].max_life, g.ent[1].act_life), (4_294_887_296, -40000));
    g.mc2_life_scale = vec![-1];
    g.ent[1] = Ent { act_life: -5, f26: 1, ..Ent::default() };
    g.mc2_castle_ladder(1);
    assert_eq!((g.ent[1].max_life, g.ent[1].act_life), (4_294_967_217, -40));
}

#[test]
fn space_check_takes_any_footprint_width() {
    let mut g = gen(2);
    // Widths 250..=255 wrap the 16-bit half-extent; none is refused.
    g.build_tab = vec![BuildDef { w: 255, h: 255, offset: 0 }; 8];
    g.ent[1] = Ent { class64: 3, model65: 2, f26: 1, x: 128 << 8, y: 128 << 8, ..Ent::default() };
    assert!(g.mc2_castle_space_ok(1));
    g.build_tab[2] = BuildDef { w: 250, h: 250, offset: 0 };
    g.t.angle[128 * 256 + 128 - 127] = 0x80;
    assert!(!g.mc2_castle_space_ok(1));
}
