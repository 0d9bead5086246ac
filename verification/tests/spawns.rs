use std::collections::HashMap;

use mgc_sim::world::{Ent, Gen, Planes, SpriteStats};

fn gen(n: usize) -> Gen {
    Gen {
        ent: vec![Ent::default(); n],
        t: Planes {
            height: vec![0; 65536],
            tile_type: vec![0; 65536],
            shading: vec![0; 65536],
            angle: vec![0; 65536],
            ceiling: vec![],
        },
        map_entity: vec![0; 65536],
        mc2_night_shade: false,
        castle_alert: 0,
        player_aggro: 0,
        player_danger: 0,
        player_invisible: false,
        kills: 0,
        mc2_wanted: HashMap::new(),
        rival_ents: vec![],
        mc2_life_scale: vec![0x100],
        build_tab: vec![],
        mc2_sprite_ext: vec![],
        sprite_params: vec![],
        sprite_stats: vec![SpriteStats { draw_type: 0, width: 10, height: 20 }; 346],
        sounds: vec![],
        spawn_count: vec![0; 32],
    }
}

#[test]
fn a_model_outside_the_table_or_a_full_pool_spawns_nothing() {
    let mut g = gen(8);
    assert_eq!(g.spawn_simple_creature(3, Some(5), (0, 0), 10), None);
    assert_eq!(g.spawn_simple_creature(2, None, (0, 0), 10), None);
    assert_eq!(g.ent[5], Ent::default());
    assert_eq!(g.spawn_count[2], 0);
}

#[test]
fn a_model_two_spawn_takes_its_row_and_draw() {
    let mut g = gen(8);
    g.sprite_stats[3] = SpriteStats { draw_type: 0, width: 60, height: 40 };
    assert_eq!(g.spawn_simple_creature(2, Some(5), (0x1234, 0), 10), Some(5));
    let e = g.ent[5];
    assert_eq!((e.class64, e.model65, e.tick70), (5, 2, 13));
    assert_eq!((e.max_life, e.act_life, e.f140), (3000, 3000, 1500));
    assert_eq!((e.f126, e.f_128, e.f130, e.row156, e.f44, e.f66), (35, 70, 30, 14, 350, 3));
    // Facing: (0x1234 & 0x7FF) - 1.
    assert_eq!((e.f30, e.f34, e.f_32, e.f36, e.f28), (0x233, 0x233, 0x233, 0, 1));
    // Timer: slot % 100; scan phase v26 - ordinal % v26 + 4.
    assert_eq!((e.f26, e.f63, e.f58), (5, 0, 14));
    assert_eq!((e.type86, e.f78, e.f80, e.f82, e.f84), (3, 20, 128, 128, 128));
    assert_eq!(g.spawn_count[2], 1);
    // The next one counts on.
    assert_eq!(g.spawn_simple_creature(2, Some(6), (0, 0), 10), Some(6));
    assert_eq!((g.ent[6].f63, g.ent[6].f58, g.ent[6].f30), (1, 13, 0xFFFF));
}

#[test]
fn model_seven_alternates_on_its_ordinal() {
    let mut g = gen(8);
    g.spawn_count[7] = 1;
    g.spawn_simple_creature(7, Some(2), (0, 0), 0);
    let e = g.ent[2];
    assert_eq!((e.max_life, e.f140, e.type86, e.f71), (4000, 2000, 85, 1));
    g.spawn_simple_creature(7, Some(3), (0, 0), 0);
    let e = g.ent[3];
    assert_eq!((e.max_life, e.type86, e.f71, e.f58), (2000, 199, 2, 64));
}

#[test]
fn model_nine_and_thirteen_read_their_draws() {
    let mut g = gen(40);
    g.spawn_simple_creature(9, Some(33), (0, 0), 7);
    let e = g.ent[33];
    // 0 % 0x832 - 1 wraps; timer 33 % 10 + 29.
    assert_eq!((e.f30, e.f26, e.tick70, e.type86), (0xFFFF, 32, 54, 220));
    g.spawn_simple_creature(13, Some(4), (5, 12), 7);
    assert_eq!((g.ent[4].type86, g.ent[4].f26, g.ent[4].f140), (218, 2, 0));
    g.spawn_simple_creature(13, Some(5), (5, 10), 7);
    assert_eq!(g.ent[5].type86, 217);
}

#[test]
fn model_one_keeps_its_sprite_extents_and_draws_no_facing() {
    let mut g = gen(8);
    g.sprite_stats[86] = SpriteStats { draw_type: 0, width: 70, height: 50 };
    g.spawn_simple_creature(1, Some(2), (0x4321, 0), 0x1FF);
    let e = g.ent[2];
    assert_eq!((e.f30, e.f80, e.f84, e.f58), (0, 35, 25, 0x100));
}

#[test]
fn model_fifteen_and_eleven_set_their_flags_and_capacity() {
    let mut g = gen(8);
    g.spawn_simple_creature(15, Some(2), (0, 0), 5);
    assert_eq!((g.ent[2].flags & 0x20000, g.ent[2].f140, g.ent[2].f58), (0x20000, 0, 9));
    g.spawn_simple_creature(11, Some(3), (0, 0), 5);
    assert_eq!((g.ent[3].f140, g.ent[3].f136, g.ent[3].f26), (10000, 20000, 0));
    g.spawn_simple_creature(5, Some(4), (0, 0), 5);
    assert_eq!((g.ent[4].f140, g.ent[4].f136), (500, 12000));
}

#[test]
fn the_wander_turn_steps_left_or_right_by_the_first_draw() {
    let mut g = gen(3);
    g.ent[1].f34 = 100;
    g.mc2_wander_turn(1, 0, 0x1FF);
    assert_eq!(g.ent[1].f34, 1808);
    g.ent[1].f34 = 100;
    g.mc2_wander_turn(1, 79, 0);
    assert_eq!(g.ent[1].f34, 185);
}

#[test]
fn the_archer_aim_stops_picks_a_sprite_and_records_the_target() {
    let mut g = gen(4);
    g.sprite_params = vec![(20, 40); 210];
    g.ent[2] = Ent { class64: 5, model65: 4, ..Ent::default() };
    g.ent[1] = Ent { f126: 33, f146: 2, ..Ent::default() };
    g.archer_aim(1, 10);
    let e = g.ent[1];
    assert_eq!((e.f126, e.type86, e.f80, e.f82, e.f84, e.f78), (0, 206, 128, 128, 256, 20));
    assert_eq!((e.f66, e.f67), (5, 4));
    g.ent[1].f146 = 0xFFFF;
    g.archer_aim(1, 11);
    assert_eq!((g.ent[1].type86, g.ent[1].f66, g.ent[1].f67), (1, 3, 0));
    g.ent[1].f146 = 99;
    g.archer_aim(1, 30);
    assert_eq!((g.ent[1].type86, g.ent[1].f66, g.ent[1].f67), (206, 3, 0));
}

#[test]
fn cave_sculptors_spawn_only_on_caves() {
    let mut g = gen(4);
    assert_eq!(g.mc2_spawn_cave_pit(0x1000, 0x2000, 5, Some(2)), None);
    assert_eq!(g.ent[2], Ent::default());
    g.t.ceiling = vec![200; 65536];
    g.ent[2].flags = 8;
    assert_eq!(g.mc2_spawn_cave_pit(0x1000, 0x2000, 5, Some(2)), Some(2));
    let e = g.ent[2];
    assert_eq!((e.class64, e.model65, e.tick70, e.act_life, e.dest_x), (10, 0x54, 0x5B, 16, 2));
    assert_eq!((e.x, e.y, e.z, e.flags, e.f71), (0x1000, 0x2000, 0, 1, 0));
    assert_eq!(g.mc2_spawn_cave_hill(0, 0, 0, Some(3)).map(|i| g.ent[i].model65), Some(0x55));
    assert_eq!(g.mc2_spawn_cave_dome(0, 0, 0, Some(1)).map(|i| g.ent[i].tick70), Some(0x5A));
    assert_eq!(g.mc2_spawn_cave_dome(0, 0, 0, None), None);
}

#[test]
fn a_villager_reads_its_heading_and_sprite_from_two_draws() {
    let mut g = gen(4);
    g.sprite_params = vec![(20, 40); 300];
    assert_eq!(g.mc2_spawn_villager(Some(2), (0x801, 10), 7), Some(2));
    let e = g.ent[2];
    assert_eq!((e.class64, e.model65, e.tick70, e.f28), (5, 13, 105, 1));
    assert_eq!((e.f126, e.f_128, e.f130), (18, 54, 18));
    assert_eq!((e.f30, e.f34, e.f_32), (0, 0, 0));
    assert_eq!((e.max_life, e.act_life, e.f140, e.f44, e.row156, e.f58, e.f26, e.f63), (1000, 1000, 0, 500, 100, 64, 2, 7));
    assert_eq!((e.type86, e.f78, e.f80, e.f82, e.f84), (242, 20, 128, 128, 128));
    g.mc2_spawn_villager(Some(3), (5, 8), 0);
    assert_eq!((g.ent[3].type86, g.ent[3].f30), (239, 4));
    assert_eq!(g.mc2_spawn_villager(None, (0, 0), 0), None);
}

#[test]
fn archers_stand_still_and_stagger_their_wake() {
    let mut g = gen(4);
    g.sprite_params = vec![(20, 40); 4];
    assert_eq!(g.mc2_spawn_archers(Some(1), 0, 3, 5), Some(1));
    let e = g.ent[1];
    assert_eq!((e.class64, e.model65, e.tick70), (5, 4, 33));
    assert_eq!((e.f126, e.f_128, e.f130), (30, 30, 0));
    assert_eq!((e.max_life, e.act_life, e.f140, e.row156, e.f63), (1000, 1000, 500, 75, 3));
    assert_eq!((e.f30, e.f58, e.type86, e.f80, e.f84), (0xFFFF, 6, 0, 128, 256));
    g.mc2_spawn_archers(Some(2), 0x10, 9, 0);
    assert_eq!((g.ent[2].f58, g.ent[2].f30), (5, 0xF));
}

#[test]
fn a_tree_jitters_its_placement_and_picks_a_variant() {
    let mut g = gen(20);
    g.ent[13].max_life = 77;
    let r = g.spawn_scenery(0, 0x1000, 0x2000, 9, Some(13), (12345, 0x3F, 0, 1));
    // x + (63 - 32), y + (0 - 32).
    assert_eq!(r, Some((13, (0x101F, 0x1FE0, 9))));
    let e = g.ent[13];
    assert_eq!((e.class64, e.model65, e.tick70, e.f28, e.f26), (2, 0, 0, 1, 2));
    assert_eq!((e.act_life, e.type86), (77, 84));
    g.spawn_scenery(0, 0, 0, 0, Some(14), (0, 0, 0, 2));
    assert_eq!(g.ent[14].type86, 83);
}

#[test]
fn rocks_and_marker_stones_take_their_rows() {
    let mut g = gen(20);
    g.ent[5].flags = 0xF;
    assert_eq!(g.spawn_scenery(2, 1, 2, 3, Some(5), (0, 0, 0, 0)), Some((5, (1, 2, 3))));
    let e = g.ent[5];
    assert_eq!((e.flags, e.tick70, e.type86, e.f80, e.f84, e.f26), (7, 6, 39, 1024, 1024, 5));
    g.spawn_scenery(3, 1, 2, 3, Some(6), (0, 0, 0, 0));
    assert_eq!((g.ent[6].tick70, g.ent[6].type86), (9, 270));
    g.spawn_scenery(5, 1, 2, 3, Some(12), (0, 0, 0, 0));
    assert_eq!((g.ent[12].tick70, g.ent[12].type86, g.ent[12].f26), (15, 48, 1));
    assert_eq!(g.spawn_scenery(6, 1, 2, 3, Some(7), (0, 0, 0, 0)), None);
    assert_eq!(g.ent[7], Ent::default());
}

fn tile_of(x: usize, y: usize) -> usize {
    y * 256 + x
}

#[test]
fn a_footprint_clear_kills_creatures_and_lists_scenery() {
    let mut g = gen(8);
    g.map_entity[tile_of(10, 10)] = 2;
    g.ent[2] = Ent { class64: 2, next20: 3, ..Ent::default() };
    g.ent[3] = Ent { class64: 5, model65: 3, act_life: 50, next20: 4, ..Ent::default() };
    g.ent[4] = Ent { class64: 5, model65: 10, act_life: 50, next20: 5, ..Ent::default() };
    g.ent[5] = Ent { class64: 5, model65: 3, act_life: 50, next20: 6, ..Ent::default() };
    g.ent[6] = Ent { class64: 5, model65: 25, tick70: 200, act_life: 50, ..Ent::default() };
    let frees = g.mc2_building_clear_tile(tile_of(10, 10), 5);
    assert_eq!(frees, vec![2]);
    assert_eq!(g.ent[3].act_life, -1);
    // The pyramid model, the builder and a busy model 25 are spared.
    assert_eq!((g.ent[4].act_life, g.ent[5].act_life, g.ent[6].act_life), (50, 50, 50));
}

#[test]
fn the_pyramid_wipe_clears_its_38_by_38_block() {
    let mut g = gen(8);
    // Block around (40, 50): x 21..=58, y 31..=68.
    g.map_entity[tile_of(21, 31)] = 2;
    g.map_entity[tile_of(58, 68)] = 3;
    g.map_entity[tile_of(20, 31)] = 4;
    g.map_entity[tile_of(40, 69)] = 5;
    g.ent[2] = Ent { class64: 5, model65: 3, act_life: 9, ..Ent::default() };
    g.ent[3] = Ent { class64: 2, ..Ent::default() };
    g.ent[4] = Ent { class64: 5, model65: 3, act_life: 9, ..Ent::default() };
    g.ent[5] = Ent { class64: 2, ..Ent::default() };
    let frees = g.mc2_pyramid_wipe(40, 50, 1);
    assert_eq!(frees, vec![3]);
    assert_eq!((g.ent[2].act_life, g.ent[4].act_life), (-1, 9));
}

#[test]
fn an_aura_takes_a_random_yaw_and_stays_unlisted() {
    let mut g = gen(4);
    g.ent[2].flags = 0x8;
    assert_eq!(g.mc2_spawn_aura(10, 20, 30, Some(2), 0x1801), Some(2));
    let e = g.ent[2];
    assert_eq!((e.class64, e.model65, e.tick70, e.max_life, e.act_life), (10, 54, 0x3B, 128, 128));
    assert_eq!((e.f126, e.f140, e.f30, e.flags), (256, 100, 1, 1));
    assert_eq!((e.x, e.y, e.z, e.f80, e.f82, e.f84), (10, 20, 30, 1024, 1024, 0x4000));
    assert_eq!(g.map_entity.iter().filter(|&&v| v != 0).count(), 0);
    assert_eq!(g.mc2_spawn_aura(10, 20, 30, None, 0), None);
}

#[test]
fn a_smoke_emitter_needs_32_free_slots() {
    let mut g = gen(4);
    assert_eq!(g.mc2_spawn_smoke_emitter(59, 1, 2, 3, 31, Some(2), (0, 0)), None);
    assert_eq!(g.ent[2], Ent::default());
    assert_eq!(g.mc2_spawn_smoke_emitter(59, 1, 2, 3, 32, Some(2), (199, 33)), Some(2));
    let e = g.ent[2];
    assert_eq!((e.class64, e.model65, e.tick70, e.max_life, e.act_life, e.f126, e.flags), (10, 59, 0x40, 899, 899, 16, 1));
    g.mc2_spawn_smoke_emitter(60, 1, 2, 3, 40, Some(3), (100, 17));
    assert_eq!((g.ent[3].tick70, g.ent[3].max_life, g.ent[3].f126), (0x41, 800, 0));
}

#[test]
fn a_castle_piece_dwells_then_arms_and_rides_the_ground() {
    let mut g = gen(3);
    g.ent[1] = Ent { id24: 5, f26: 1, ..Ent::default() };
    g.mc2_castle_piece_tick(1, 0, 100);
    assert_eq!((g.ent[1].f71, g.ent[1].z), (1, 484));
    g.mc2_castle_piece_tick(1, 50, 100);
    assert_eq!((g.ent[1].f71, g.ent[1].f44), (2, 18));
    for _ in 0..17 {
        g.mc2_castle_piece_tick(1, 0, 100);
    }
    assert_eq!((g.ent[1].f71, g.ent[1].f44), (2, 1));
    g.ent[1].f26 = 4;
    g.mc2_castle_piece_tick(1, 0, -10);
    assert_eq!((g.ent[1].f71, g.ent[1].f44, g.ent[1].z), (3, 0, 214));
    // Ownerless: it dies where it stands.
    g.ent[1].id24 = 0;
    g.mc2_castle_piece_tick(1, 0, 0);
    assert_eq!((g.ent[1].flags & 0x400, g.ent[1].z), (0x400, 214));
}

#[test]
fn a_fire_trail_takes_a_random_yaw() {
    let mut g = gen(4);
    g.ent[1].flags = 0x9;
    assert_eq!(g.mc2_spawn_fire_trail(5, 6, 7, Some(1), 0xFFFF), Some(1));
    let e = g.ent[1];
    assert_eq!((e.class64, e.model65, e.tick70, e.max_life, e.act_life, e.f126, e.f140), (10, 15, 15, 128, 128, 256, 100));
    assert_eq!((e.flags, e.f30, e.x, e.y, e.z, e.f80, e.f84), (1, 0x7FF, 5, 6, 7, 1024, 0x4000));
}

#[test]
fn a_falling_prop_rolls_its_life_and_jitter() {
    let mut g = gen(4);
    g.sprite_stats[323] = SpriteStats { draw_type: 0, width: 8, height: 6 };
    let r = g.mc2_spawn_falling(8, 0x100, 0x200, -3, Some(2), (2399, 0, 0x3F));
    assert_eq!(r, Some((2, (0xE0, 0x21F, -3))));
    let e = g.ent[2];
    assert_eq!((e.class64, e.model65, e.tick70, e.f56, e.f28, e.f44), (2, 8, 21, 1, 1, 0xFF80));
    assert_eq!((e.max_life, e.act_life, e.type86, e.f80), (799, 799, 323, 4));
    g.mc2_spawn_falling(7, 0, 0, 0, Some(3), (0, 32, 32));
    assert_eq!((g.ent[3].tick70, g.ent[3].max_life, g.ent[3].type86), (20, 400, 322));
}

#[test]
fn a_goat_takes_its_row_and_ordinal() {
    let mut g = gen(140);
    g.sprite_params = vec![(30, 50); 240];
    assert_eq!(g.mc2_spawn_goat(Some(130), 4, 9), Some(130));
    let e = g.ent[130];
    assert_eq!((e.class64, e.model65, e.tick70, e.f28), (5, 1, 9, 1));
    assert_eq!((e.f126, e.f_128, e.f130, e.max_life, e.act_life, e.f140), (18, 54, 18, 600, 600, 300));
    assert_eq!((e.f26, e.row156, e.f58, e.f63, e.type86, e.f80), (30, 98, 10, 4, 238, 15));
}

#[test]
fn bolts_take_their_rows_and_the_projectile_flag() {
    let mut g = gen(4);
    g.sprite_params = vec![(40, 60); 341];
    g.ent[1].flags = 0x8;
    assert_eq!(g.mc2_spawn_bolt(Some(1)), Some(1));
    let e = g.ent[1];
    assert_eq!((e.class64, e.model65, e.tick70, e.f126, e.f_128, e.f140), (9, 0, 0, 384, 384, 50));
    assert_eq!((e.max_life, e.act_life, e.row156, e.flags, e.type86, e.f80), (21, 21, 64, 0x2000_0000, 340, 20));
    assert_eq!(g.mc2_spawn_bolt9(Some(2)), Some(2));
    let e = g.ent[2];
    assert_eq!((e.model65, e.tick70, e.max_life, e.row156, e.type86), (9, 9, 9, 63, 216));
    assert_eq!(g.mc2_spawn_bolt(None), None);
}

#[test]
fn a_ground_fire_burns_for_eight_ticks() {
    let mut g = gen(4);
    g.sprite_params = vec![(40, 60); 8];
    g.ent[3].flags = 0x2_0009;
    g.ent[3].f56 = 9;
    assert_eq!(g.mc2_spawn_fire(Some(3)), Some(3));
    let e = g.ent[3];
    assert_eq!((e.class64, e.model65, e.max_life, e.act_life, e.f140, e.f56), (10, 0, 8, 8, 400, 0));
    assert_eq!((e.flags, e.type86, e.f78, e.f80, e.f84), (0x2_0001, 7, 30, 128, 128));
}

#[test]
fn a_balloon_takes_its_owner_and_team_sprite() {
    let mut g = gen(4);
    g.sprite_params = vec![(40, 60); 180];
    assert_eq!(g.mc2_spawn_balloon(7, 2, Some(1)), Some(1));
    let e = g.ent[1];
    assert_eq!((e.class64, e.model65, e.tick70, e.max_life, e.act_life), (3, 3, 9, 10000, 10000));
    assert_eq!((e.f126, e.f136, e.f140, e.f28, e.row156, e.id24, e.f144), (48, 10000, 0, 1, 9, 7, 7));
    assert_eq!((e.type86, e.f80, e.f84), (171, 20, 30));
    g.t.ceiling = vec![100; 65536];
    g.mc2_spawn_balloon(7, 0, Some(2));
    assert_eq!((g.ent[2].type86, g.ent[2].f80, g.ent[2].f82, g.ent[2].f84), (169, 256, 256, 768));
}

#[test]
fn a_smoke_particle_rises_at_a_drawn_rate() {
    let mut g = gen(4);
    g.sprite_params = vec![(40, 60); 20];
    assert_eq!(g.mc2_spawn_smoke_particle(13, 25, 12, Some(2), 52), Some(2));
    let e = g.ent[2];
    assert_eq!((e.class64, e.model65, e.tick70, e.max_life, e.act_life), (10, 13, 13, 25, 25));
    assert_eq!((e.f130, e.f66, e.f67, e.f126, e.flags, e.type86), (30, 10, 13, 103, 0x2_0000, 12));
    g.mc2_spawn_smoke_particle(14, 5, 3, Some(3), 53);
    assert_eq!((g.ent[3].tick70, g.ent[3].f126, g.ent[3].f67), (14, 51, 14));
}
