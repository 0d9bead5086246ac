use std::collections::HashMap;

use mgc_sim::mc2::mobs::{mc2_alt_core, GOAT_BASE};
use mgc_sim::mobs::{alt_clamp, angdist, dist2_sq, frame_count, turn_step};
use mgc_sim::world::{tile, BehaviorRow, Ent, Gen, MobCtx, Planes, SpriteStats, PLAYER_TARGET};

fn gen(n: usize) -> Gen {
    Gen {
        ent: vec![Ent::default(); n],
        t: Planes {
            height: vec![0; 65536],
            tile_type: vec![0; 65536],
            shading: vec![0; 65536],
            angle: vec![0; 65536],
            ceiling: vec![],
        },
        map_entity: vec![0; 65536],
        mc2_night_shade: false,
        castle_alert: 0,
        player_aggro: 0,
        player_danger: 0,
        player_invisible: false,
        kills: 0,
        mc2_wanted: HashMap::new(),
        rival_ents: vec![],
        mc2_life_scale: vec![0x100],
        build_tab: vec![],
        mc2_sprite_ext: vec![],
        sprite_params: vec![],
        sprite_stats: vec![],
        sounds: vec![],
        spawn_count: vec![0; 32],
    }
}

#[test]
fn frame_counts_by_draw_type() {
    assert_eq!(frame_count(0), 1);
    assert_eq!(frame_count(1), 1);
    assert_eq!(frame_count(2), 2);
    assert_eq!(frame_count(16), 16);
    assert_eq!(frame_count(17), 1);
    assert_eq!(frame_count(21), 1);
    assert_eq!(frame_count(22), 2);
    assert_eq!(frame_count(36), 16);
    assert_eq!(frame_count(37), 0);
    assert_eq!(frame_count(255), 0);
}

#[test]
fn cap_bit_reads_the_tile_under_the_position() {
    let mut g = gen(2);
    g.t.tile_type[tile(3, 5)] = 9;
    assert_eq!(g.cap_bit((3 << 8) | 0x80, 5 << 8), 0x200);
    g.t.tile_type[tile(3, 5)] = 13;
    assert_eq!(g.cap_bit(3 << 8, (5 << 8) | 0xFF), 0);
    g.t.tile_type[tile(3, 5)] = 30;
    assert_eq!(g.cap_bit(3 << 8, 5 << 8), 0x400);
    g.t.tile_type[tile(3, 5)] = 200;
    assert_eq!(g.cap_bit(3 << 8, 5 << 8), 0x80_0000);
    assert_eq!(g.cap_bit(0, 0), 1);
}

#[test]
fn roughness_is_the_larger_cross_difference() {
    let mut g = gen(2);
    g.t.height[tile(2, 2)] = 10;
    g.t.height[tile(3, 2)] = 4;
    g.t.height[tile(2, 3)] = 6;
    g.t.height[tile(3, 3)] = 0;
    assert_eq!(g.roughness(2 << 8, 2 << 8), 12);
    // The east and south neighbours wrap at the plane edge.
    g.t.height[tile(255, 255)] = 9;
    g.t.height[tile(0, 0)] = 30;
    assert_eq!(g.roughness(0xFF00, 0xFF00), 21);
}

#[test]
fn alt_clamp_steps_toward_the_band() {
    let row = BehaviorRow { v_10: 50, v_12: 10, v_14: -8 };
    let mut z = 200i16;
    alt_clamp(&mut z, 100, &row);
    assert_eq!(z, 192);
    let mut z = 120i16;
    alt_clamp(&mut z, 100, &row);
    assert_eq!(z, 118);
    let mut z = 111i16;
    alt_clamp(&mut z, 100, &row);
    assert_eq!(z, 110);
    let mut z = 50i16;
    alt_clamp(&mut z, 100, &row);
    assert_eq!(z, 110);
}

#[test]
fn mc2_alt_core_sinks_then_floors() {
    let mut z = 300i16;
    mc2_alt_core(&mut z, 100, 20, -16);
    assert_eq!(z, 284);
    let mut z = 110i16;
    mc2_alt_core(&mut z, 100, 20, -16);
    assert_eq!(z, 120);
    let mut z = 90i16;
    mc2_alt_core(&mut z, 100, 20, -16);
    assert_eq!(z, 120);
}

#[test]
fn angles_wrap_at_eleven_bits() {
    assert_eq!(angdist(100, 2000), 148);
    assert_eq!(angdist(0, 1024), 1024);
    assert_eq!(angdist(0, 1025), 1023);
    assert_eq!(angdist(5, 5 + 2048), 0);
    assert_eq!(turn_step(0, 100, 30), 30);
    assert_eq!(turn_step(100, 0, 30), -30);
    assert_eq!(turn_step(0, 10, 30), 10);
    assert_eq!(turn_step(5, 5, 30), 0);
}

#[test]
fn dist2_wraps_deltas_and_sum() {
    assert_eq!(dist2_sq(0, 0, 3, 4), 25);
    assert_eq!(dist2_sq(65535, 0, 1, 0), 4);
    assert_eq!(dist2_sq(0, 0, 32768, 32768), i32::MIN);
}

#[test]
fn set_sprite_takes_the_stats_row() {
    let mut g = gen(3);
    g.sprite_stats = vec![SpriteStats { draw_type: 0, width: 0, height: 0 }; 8];
    g.sprite_stats[7] = SpriteStats { draw_type: 24, width: 40, height: 30 };
    g.ent[1].frame88 = 5;
    g.set_sprite(1, 7);
    let e = g.ent[1];
    assert_eq!((e.frame88, e.type86, e.frames89), (0, 7, 4));
    assert_eq!((e.f78, e.f80, e.f82, e.f84), (15, 20, 20, 15));
    assert_eq!(g.ent[2], Ent::default());
}

#[test]
fn simple_setters() {
    let mut g = gen(2);
    g.ent[1].max_life = 700;
    g.ent[1].act_life = 3;
    g.refill_life(1);
    assert_eq!(g.ent[1].act_life, 700);
    g.spawn_facing(1, 0x123);
    assert_eq!((g.ent[1].f34, g.ent[1].f30, g.ent[1].f_32, g.ent[1].f36), (0x123, 0x123, 0x123, 0));
    g.extents(1, 64, 96);
    assert_eq!((g.ent[1].f80, g.ent[1].f82, g.ent[1].f84), (64, 64, 96));
}

#[test]
fn corpse_despawns_on_the_eighth_beat() {
    let mut g = gen(2);
    g.ent[1].f63 = 9;
    g.mob_corpse(1);
    assert_eq!(g.ent[1].flags & 0x400, 0);
    g.ent[1].f63 = 16;
    g.mob_corpse(1);
    assert_eq!(g.ent[1].flags & 0x400, 0x400);
}

#[test]
fn animation_stops_at_the_frame_count() {
    let mut g = gen(2);
    g.ent[1].frame88 = 2;
    g.ent[1].frames89 = 3;
    assert!(!g.anim_advance(1));
    assert_eq!(g.ent[1].frame88, 3);
    assert!(g.anim_advance(1));
    assert_eq!(g.ent[1].frame88, 3);
}

#[test]
fn death_walks_the_body_segments() {
    let mut g = gen(6);
    g.ent[1].f54 = 3;
    g.ent[3].f54 = 4;
    g.mob_death(1, 40);
    assert_eq!(g.ent[1].tick70, 45);
    assert_eq!(g.ent[3].tick70, 45);
    assert_eq!(g.ent[4].tick70, 45);
    assert_eq!(g.ent[2].tick70, 0);
    assert_eq!(g.ent[5].tick70, 0);
}

#[test]
fn burrower_disguise_and_emerge() {
    let mut g = gen(2);
    g.sprite_stats = vec![SpriteStats { draw_type: 0, width: 0, height: 0 }; 240];
    g.sprite_stats[201] = SpriteStats { draw_type: 3, width: 10, height: 20 };
    g.sprite_stats[237] = SpriteStats { draw_type: 5, width: 8, height: 8 };
    g.ent[1].f_128 = 77;
    g.m9_disguise(1);
    let e = g.ent[1];
    assert_eq!((e.f126, e.f66, e.f67, e.f26, e.f71, e.type86), (77, 3, 0xFF, 50, 0, 201));
    // Count down to 17: the transform sprite.
    g.ent[1].f26 = 17;
    g.m9_emerge(1);
    assert_eq!((g.ent[1].f26, g.ent[1].type86, g.ent[1].frames89), (16, 237, 5));
    // Ran out: back into the mound.
    g.ent[1].f26 = 0;
    g.m9_emerge(1);
    let e = g.ent[1];
    assert_eq!((e.tick70, e.f26, e.type86), (55, 400, 201));
}

#[test]
fn awake_pass_counts_down_and_wakes_near_the_player() {
    let mut g = gen(6);
    let ctx = MobCtx { px: 0x1000, py: 0x1000, pz: 0, pyaw: 0 };
    // 1: awake, mirrored into its segment 2.
    g.ent[1].class64 = 5;
    g.ent[1].f58 = 5;
    g.ent[1].f54 = 2;
    // 3: asleep near the player, segment 4.
    g.ent[3].class64 = 5;
    g.ent[3].x = 0x1100;
    g.ent[3].y = 0x1000;
    g.ent[3].f54 = 4;
    // 5: dead.
    g.ent[5].class64 = 5;
    g.ent[5].act_life = -1;
    g.mob_awake_pass(&ctx);
    assert_eq!((g.ent[1].f58, g.ent[2].f58), (4, 4));
    assert_eq!((g.ent[3].f58, g.ent[4].f58), (16, 18));
    assert_eq!((g.ent[5].f58, g.ent[5].f59), (250, 0));
}

#[test]
fn awake_pass_waits_out_the_delay_and_ignores_the_far() {
    let mut g = gen(3);
    let ctx = MobCtx { px: 0, py: 0, pz: 0, pyaw: 0 };
    g.ent[1].class64 = 5;
    g.ent[1].f59 = 2;
    g.ent[2].class64 = 5;
    g.ent[2].x = 0x3000;
    g.mob_awake_pass(&ctx);
    assert_eq!((g.ent[1].f58, g.ent[1].f59), (0, 1));
    assert_eq!((g.ent[2].f58, g.ent[2].f59), (0, 0));
    // 24 tiles is exactly out of reach; just inside wakes.
    g.ent[2].x = 0x1800;
    g.mob_awake_pass(&ctx);
    assert_eq!(g.ent[2].f58, 0);
    g.ent[2].x = 0x17FF;
    g.mob_awake_pass(&ctx);
    assert_eq!(g.ent[2].f58, 16);
}

#[test]
fn mc2_awake_pass_propagates_then_decrements() {
    let mut g = gen(8);
    let ctx = MobCtx { px: 0, py: 0, pz: 0, pyaw: 0 };
    g.ent[1].class64 = 5;
    g.ent[1].f58 = 3;
    g.ent[1].f54 = 2;
    // Hidden: never proximity-wakes.
    g.ent[3].class64 = 5;
    g.ent[3].flags = 1;
    // Parked state: skipped.
    g.ent[4].class64 = 5;
    g.ent[4].tick70 = 0xE8;
    g.ent[4].f59 = 3;
    // Dead creature: 0xFA.
    g.ent[5].class64 = 5;
    g.ent[5].act_life = -4;
    // A mana sphere near the player wakes too.
    g.ent[6].class64 = 10;
    g.ent[6].model65 = 39;
    g.ent[6].f54 = 7;
    g.mc2_awake_pass(&ctx);
    assert_eq!((g.ent[1].f58, g.ent[2].f58), (2, 3));
    assert_eq!(g.ent[3].f58, 0);
    assert_eq!(g.ent[4].f59, 3);
    assert_eq!((g.ent[5].f58, g.ent[5].f59), (0xFA, 0));
    assert_eq!((g.ent[6].f58, g.ent[7].f58), (16, 18));
}

#[test]
fn mc2_awake_one_clears_the_wait_only_when_idle() {
    let mut g = gen(2);
    let ctx = MobCtx { px: 0x4000, py: 0, pz: 0, pyaw: 0 };
    g.ent[1].f59 = 1;
    g.mc2_awake_one(1, &ctx);
    assert_eq!(g.ent[1].f59, 0);
    g.mc2_awake_one(1, &ctx);
    assert_eq!((g.ent[1].f58, g.ent[1].f59), (0, 0));
}

#[test]
fn mc2_dist3_is_the_floor_root() {
    assert_eq!(Gen::mc2_dist3((0, 0, 0), (3, 4, 12)), 13);
    assert_eq!(Gen::mc2_dist3((10, 10, 5), (10, 10, 5)), 0);
    assert_eq!(Gen::mc2_dist3((65535, 0, 0), (1, 0, 0)), 2);
    assert_eq!(Gen::mc2_dist3((0, 0, 0), (1, 1, 1)), 1);
}

#[test]
fn mc2_sprite_setters_use_the_derived_rows_first() {
    let mut g = gen(2);
    g.sprite_params = vec![(10, 20), (30, 40), (50, 60)];
    g.mc2_sprite_ext = vec![(100, 200)];
    assert_eq!(g.mc2_params_ext(0), (100, 200));
    assert_eq!(g.mc2_params_ext(2), (50, 60));
    g.mc2_set_sprite(1, 2);
    let e = g.ent[1];
    assert_eq!((e.type86, e.frame88, e.f78, e.f80, e.f82, e.f84), (2, 0, 30, 25, 25, 30));
    g.mc2_set_sprite_x2(1, 1);
    let e = g.ent[1];
    assert_eq!((e.type86, e.f78, e.f80, e.f82, e.f84), (1, 20, 30, 30, 40));
    g.mc2_shift_rot(1, 7, 9);
    assert_eq!((g.ent[1].f80, g.ent[1].f82, g.ent[1].f84), (7, 7, 9));
    g.ent[1].max_life = 301;
    g.mc2_set_mana_half(1);
    assert_eq!(g.ent[1].f140, 150);
}

#[test]
fn state_head_takes_the_mail_and_reports() {
    let mut g = gen(4);
    g.ent[1].act_life = 100;
    g.ent[1].mail[0] = (30, 9);
    assert_eq!(g.mc2_state_head(1), 1);
    assert_eq!((g.ent[1].act_life, g.ent[1].f40, g.ent[1].mail[0]), (70, 9, (30, 0)));
    // Quiet: the attacker slot clears.
    assert_eq!(g.mc2_state_head(1), 0);
    assert_eq!(g.ent[1].f40, 0);
    // A lethal hit latches the killer.
    g.ent[1].mail[0] = (80, 5);
    assert_eq!(g.mc2_state_head(1), 2);
    assert_eq!((g.ent[1].act_life, g.ent[1].f38), (-10, 5));
}

#[test]
fn state_head_borrows_a_weaker_segment() {
    let mut g = gen(4);
    g.ent[1].act_life = 100;
    g.ent[1].f54 = 2;
    g.ent[2].act_life = 40;
    g.ent[2].f40 = 7;
    assert_eq!(g.mc2_state_head(1), 1);
    assert_eq!((g.ent[1].act_life, g.ent[1].f40), (40, 7));
}

#[test]
fn wanted_timers() {
    let mut g = gen(4);
    g.ent[2].class64 = 3;
    g.ent[2].model65 = 1;
    g.ent[3].class64 = 5;
    g.mc2_arm_wanted(PLAYER_TARGET);
    assert_eq!(g.player_aggro, 200);
    assert!(g.mc2_wanted_live(PLAYER_TARGET));
    g.mc2_arm_wanted(2);
    assert_eq!(g.mc2_wanted.get(&2), Some(&200));
    assert!(g.mc2_wanted_live(2));
    g.mc2_arm_wanted(3);
    assert_eq!(g.mc2_wanted.get(&3), None);
    assert!(!g.mc2_wanted_live(3));
}

#[test]
fn target_resolves_live_entities_and_the_player() {
    let mut g = gen(4);
    let ctx = MobCtx { px: 1, py: 2, pz: 3, pyaw: 0 };
    g.ent[2] = Ent { class64: 5, x: 10, y: 20, z: 30, ..Ent::default() };
    g.ent[3] = Ent { class64: 5, act_life: -1, ..Ent::default() };
    assert_eq!(g.mc2_target(PLAYER_TARGET, &ctx), Some((1, 2, 3)));
    assert_eq!(g.mc2_target(2, &ctx), Some((10, 20, 30)));
    assert_eq!(g.mc2_target(3, &ctx), None);
    assert_eq!(g.mc2_target(0, &ctx), None);
    assert_eq!(g.mc2_target(9, &ctx), None);
    assert_eq!(g.mc2_target(1, &ctx), None);
}

#[test]
fn prekill_credits_a_player_kill() {
    let mut g = gen(4);
    g.ent[1] = Ent { class64: 5, model65: 4, f38: PLAYER_TARGET, f54: 2, ..Ent::default() };
    g.mc2_prekill(1, 20);
    assert_eq!((g.ent[1].tick70, g.ent[2].tick70), (25, 25));
    assert_eq!(g.kills, 1);
    // Model 9 earns nothing.
    let mut g = gen(2);
    g.ent[1] = Ent { class64: 5, model65: 9, f38: PLAYER_TARGET, ..Ent::default() };
    g.mc2_prekill(1, 20);
    assert_eq!(g.kills, 0);
}

#[test]
fn goat_and_archer_fixups() {
    let mut g = gen(2);
    g.sprite_params = vec![(16, 32)];
    g.ent[1].f_128 = 12;
    g.ent[1].f126 = 90;
    g.ent[1].tick70 = GOAT_BASE + 5;
    g.goat_speed_fixup(1);
    assert_eq!(g.ent[1].f126, 90);
    g.ent[1].tick70 = GOAT_BASE + 6;
    g.goat_speed_fixup(1);
    assert_eq!(g.ent[1].f126, 12);
    g.ent[1].f126 = 90;
    g.archer_unaim(1);
    let e = g.ent[1];
    assert_eq!((e.f126, e.type86, e.f78, e.f80, e.f82, e.f84, e.f66, e.f67), (12, 0, 16, 128, 128, 256, 3, 0xFF));
}
