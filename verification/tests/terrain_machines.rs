use std::collections::HashMap;

use mgc_sim::world::{tile, Ent, Gen, Planes};

fn gen(n: usize) -> Gen {
    Gen {
        ent: vec![Ent::default(); n],
        t: Planes {
            height: vec![0; 65536],
            tile_type: vec![0; 65536],
            shading: vec![0; 65536],
            angle: vec![0; 65536],
            ceiling: vec![],
        },
        map_entity: vec![0; 65536],
        mc2_night_shade: false,
        castle_alert: 0,
        player_aggro: 0,
        player_danger: 0,
        player_invisible: false,
        kills: 0,
        mc2_wanted: HashMap::new(),
        rival_ents: vec![],
        mc2_life_scale: vec![0x100],
        build_tab: vec![],
        mc2_sprite_ext: vec![],
        sprite_params: vec![],
        sprite_stats: vec![],
        sounds: vec![],
        spawn_count: vec![0; 32],
    }
}

fn cave(n: usize) -> Gen {
    let mut g = gen(n);
    g.t.ceiling = vec![200; 65536];
    g
}

#[test]
fn seal_fixup_opens_or_pins() {
    let mut g = cave(1);
    let t = tile(10, 10);
    g.t.height[t] = 10;
    g.t.ceiling[t] = 20;
    g.t.angle[t] = 0x0F;
    g.cave_seal_fixup(t);
    assert_eq!((g.t.angle[t], g.t.ceiling[t]), (0x07, 20));
    g.t.height[t] = 30;
    g.cave_seal_fixup(t);
    assert_eq!((g.t.angle[t], g.t.ceiling[t]), (0x0F, 29));
    // Settled: a second run changes nothing.
    g.cave_seal_fixup(t);
    assert_eq!((g.t.angle[t], g.t.ceiling[t]), (0x0F, 29));
    // A zero floor pins the ceiling to 255 (wrapping floor - 1).
    g.t.height[t] = 0;
    g.t.ceiling[t] = 0;
    g.cave_seal_fixup(t);
    assert_eq!(g.t.ceiling[t], 255);
    // Off-cave it is a no-op.
    let mut g = gen(1);
    g.t.angle[t] = 0x0F;
    g.cave_seal_fixup(t);
    assert_eq!(g.t.angle[t], 0x0F);
}

#[test]
fn perimeter_walks_take_extremes() {
    let mut g = cave(1);
    for v in g.t.height.iter_mut() {
        *v = 100;
    }
    // Box at (10, 10), w = 2, h = 3: rows y = 10 and y = 12 for
    // x = 10..12, then columns x = 13 and x = 10 for y = 10..11.
    g.t.height[tile(11, 10)] = 7;
    g.t.height[tile(13, 11)] = 150;
    assert_eq!(g.mc2_perimeter_min(10, 10, 2, 3), 7);
    assert_eq!(g.cave_perimeter_max_floor(10, 10, 2, 3), 150);
    // Cells off the walk are not read.
    g.t.height[tile(11, 11)] = 1;
    g.t.height[tile(13, 12)] = 255;
    assert_eq!(g.mc2_perimeter_min(10, 10, 2, 3), 7);
    assert_eq!(g.cave_perimeter_max_floor(10, 10, 2, 3), 150);
    g.t.ceiling[tile(12, 12)] = 30;
    assert_eq!(g.cave_perimeter_min_ceiling(10, 10, 2, 3), 30);
    assert_eq!(g.cave_perimeter_max_ceiling(10, 10, 2, 3), 200);
    // The min starts at 250.
    let g2 = cave(1);
    let mut g2 = g2;
    for v in g2.t.height.iter_mut() {
        *v = 252;
    }
    assert_eq!(g2.mc2_perimeter_min(10, 10, 2, 3), 250);
    assert_eq!(g2.cave_perimeter(10, 10, 2, 3, false, true), 200);
}

#[test]
fn tile_probes() {
    let mut g = gen(1);
    g.t.tile_type[tile(4, 9)] = 8;
    g.t.angle[tile(4, 9)] = 8;
    assert!(g.mc2_deep_water((4 << 8) + 200, 9 << 8));
    assert!(g.mc2_sealed(4 << 8, (9 << 8) + 255));
    assert!(!g.mc2_deep_water(5 << 8, 9 << 8));
    assert!(!g.mc2_sealed(4 << 8, 10 << 8));
    assert!(!g.is_cave());
    assert!(cave(1).is_cave());
}

fn pillar(life: i32) -> Ent {
    // Centered on tile (100, 100), length 4 along X.
    Ent { x: 100 << 8, y: 100 << 8, f146: 0, f44: 1, act_life: life, z: 50, ..Ent::default() }
}

#[test]
fn pillar_measure_finds_the_flank_walls() {
    let mut g = cave(2);
    g.ent[1] = pillar(0);
    g.t.angle[tile(95, 100)] = 8;
    g.t.height[tile(95, 100)] = 20;
    g.t.angle[tile(104, 100)] = 8;
    g.t.height[tile(104, 100)] = 40;
    assert!(g.mc2_pillar_tick(1));
    assert_eq!((g.ent[1].act_life, g.ent[1].z), (4, 30));
    // The 4 x 2 footprint at (98, 99) is stamped dirty.
    for y in 99..=100u8 {
        for x in 98..=101u8 {
            assert_eq!(g.t.angle[tile(x, y)] & 0x80, 0x80, "({x}, {y})");
        }
    }
    assert_eq!(g.t.angle[tile(97, 100)] & 0x80, 0);
    assert_eq!(g.t.angle[tile(102, 100)] & 0x80, 0);
    // Idle afterwards.
    assert!(!g.mc2_pillar_tick(1));
}

#[test]
fn pillar_measure_without_walls_despawns() {
    let mut g = cave(2);
    g.ent[1] = pillar(0);
    // The rays wrap the whole row, so a single wall would serve both:
    // with none anywhere on the row the pillar gives up.
    g.t.angle[tile(95, 101)] = 8;
    assert!(!g.mc2_pillar_tick(1));
    assert_eq!(g.ent[1].flags & 0x400, 0x400);
    assert_eq!(g.ent[1].act_life, 4);
}

#[test]
fn pillar_grow_closes_by_the_step() {
    let mut g = cave(2);
    g.ent[1] = pillar(1);
    for y in 99..=100u8 {
        for x in 98..=101u8 {
            g.t.height[tile(x, y)] = 10;
            g.t.ceiling[tile(x, y)] = 100;
        }
    }
    assert!(g.mc2_pillar_tick(1));
    assert_eq!(g.sounds, vec![(47, 1)]);
    assert_eq!(g.ent[1].act_life, 1);
    for y in 99..=100u8 {
        for x in 98..=101u8 {
            let t = tile(x, y);
            assert_eq!((g.t.height[t], g.t.ceiling[t], g.t.angle[t] & 8), (11, 99, 0));
        }
    }
    assert_eq!(g.t.height[tile(102, 100)], 0);
}

#[test]
fn pillar_grow_done_seals_and_builds() {
    let mut g = cave(2);
    g.ent[1] = pillar(1);
    // Already met: floor at the cap, ceiling at the floor.
    for y in 99..=100u8 {
        for x in 98..=101u8 {
            g.t.height[tile(x, y)] = 60;
            g.t.ceiling[tile(x, y)] = 60;
            g.t.angle[tile(x, y)] = 8;
        }
    }
    assert!(!g.mc2_pillar_tick(1));
    assert_eq!(g.ent[1].act_life, 3);
    assert_eq!(g.t.angle[tile(99, 100)] & 8, 8);
}

#[test]
fn flood_corner_mean_and_settle() {
    let mut g = gen(1);
    g.t.height[tile(10, 10)] = 10;
    g.t.height[tile(13, 10)] = 20;
    g.t.height[tile(13, 15)] = 30;
    g.t.height[tile(10, 15)] = 41;
    assert_eq!(g.flood_corner_mean(10, 10, 3, 5), 25);
    // Settle: no low angle bits keeps the cell.
    let t = tile(50, 50);
    g.t.height[t] = 80;
    assert_eq!(g.flood_settle_cell(50, 50), 80);
    g.t.angle[t] = 1;
    // A lone spike above flat ground: the full mean (0).
    assert_eq!(g.flood_settle_cell(50, 50), 0);
    // Flat within 4: kept.
    for (dx, dy) in [(-1i32, -1i32), (0, -1), (1, -1), (-1, 0), (1, 0), (-1, 1), (0, 1), (1, 1)] {
        g.t.height[tile((50 + dx) as u8, (50 + dy) as u8)] = 78;
    }
    assert_eq!(g.flood_settle_cell(50, 50), 80);
    // A mild bump (6 above the lowest): half-blend with the mean.
    g.t.height[tile(49, 49)] = 74;
    // sum = 7 * 78 + 74 = 620, mean 77; (77 + 80) / 2 = 78.
    assert_eq!(g.flood_settle_cell(50, 50), 78);
}

#[test]
fn flood_shade_clamps_and_flips_at_night() {
    let mut g = gen(1);
    g.t.height[tile(9, 9)] = 20;
    g.flood_shade_cell(10, 10);
    // 20 - 0 + 32 = 52 -> (52 & 7) + 40 = 44.
    assert_eq!(g.t.shading[tile(10, 10)], 44);
    g.t.height[tile(11, 11)] = 30;
    // 20 - 30 + 32 = 22 -> (22 & 3) + 28 = 30.
    g.flood_shade_cell(10, 10);
    assert_eq!(g.t.shading[tile(10, 10)], 30);
    g.mc2_night_shade = true;
    g.flood_shade_cell(10, 10);
    assert_eq!(g.t.shading[tile(10, 10)], 34);
    // On caves the bit3 sync runs without a ceiling pin.
    let mut g = cave(1);
    let t = tile(10, 10);
    g.t.height[t] = 210;
    g.flood_shade_cell(10, 10);
    assert_eq!((g.t.angle[t] & 8, g.t.ceiling[t]), (8, 200));
}

#[test]
fn shove_filter_ladder() {
    let mut g = gen(3);
    g.ent[1].id24 = 1;
    let cases = [
        (Ent { class64: 1, ..Ent::default() }, false),
        (Ent { class64: 2, ..Ent::default() }, true),
        (Ent { class64: 3, model65: 0, id24: 1, ..Ent::default() }, false),
        (Ent { class64: 3, model65: 0, id24: 2, ..Ent::default() }, true),
        (Ent { class64: 3, model65: 1, id24: 2, flags: 0x20, ..Ent::default() }, false),
        (Ent { class64: 3, model65: 2, id24: 2, ..Ent::default() }, false),
        (Ent { class64: 5, model65: 3, ..Ent::default() }, true),
        (Ent { class64: 5, model65: 3, tick70: 232, ..Ent::default() }, false),
        (Ent { class64: 5, model65: 0x16, ..Ent::default() }, false),
        (Ent { class64: 5, model65: 27, tick70: 233, ..Ent::default() }, false),
        (Ent { class64: 5, model65: 27, tick70: 200, ..Ent::default() }, true),
        (Ent { class64: 9, model65: 13, ..Ent::default() }, true),
        (Ent { class64: 9, model65: 12, ..Ent::default() }, false),
        (Ent { class64: 10, model65: 57, ..Ent::default() }, true),
        (Ent { class64: 10, model65: 45, ..Ent::default() }, false),
        (Ent { class64: 14, model65: 2, ..Ent::default() }, true),
        (Ent { class64: 14, model65: 1, ..Ent::default() }, false),
        (Ent { class64: 0, ..Ent::default() }, true),
        (Ent { class64: 16, ..Ent::default() }, true),
    ];
    for (k, (e, expect)) in cases.iter().enumerate() {
        g.ent[2] = *e;
        assert_eq!(g.flood_shovable(1, 2), *expect, "case {k}");
    }
}

#[test]
fn overlap_uses_wrapped_axis_distances() {
    let mut g = gen(3);
    g.ent[1] = Ent { x: 65500, y: 100, f80: 30, f82: 10, ..Ent::default() };
    g.ent[2] = Ent { x: 20, y: 105, f80: 30, f82: 10, ..Ent::default() };
    assert!(g.mc2_overlap_xy(1, 2));
    g.ent[2].x = 24;
    assert!(!g.mc2_overlap_xy(1, 2));
}

#[test]
fn flood_probe_needs_rough_ground_and_no_other_quake() {
    let mut g = gen(4);
    g.ent[1] = Ent { x: 100 << 8, y: 100 << 8, ..Ent::default() };
    // Open ground everywhere: abort.
    assert!(!g.flood_probe(1));
    for v in g.t.tile_type.iter_mut() {
        *v = 1;
    }
    assert!(g.flood_probe(1));
    // Another quake inside the 54 x 54 window.
    g.ent[2] = Ent { class64: 10, model65: 67, ..Ent::default() };
    g.map_entity[tile(126, 100)] = 2;
    assert!(!g.flood_probe(1));
    g.map_entity[tile(126, 100)] = 0;
    g.map_entity[tile(127, 100)] = 2;
    assert!(g.flood_probe(1));
    // A building in action 48, second in its cell chain.
    g.ent[3] = Ent { class64: 10, model65: 0x2D, tick70: 48, ..Ent::default() };
    g.ent[2] = Ent { next20: 3, ..Ent::default() };
    g.map_entity[tile(80, 80)] = 2;
    assert!(!g.flood_probe(1));
}

fn riser(life: i32, len: i16, orient: u8) -> Ent {
    Ent { class64: 14, model65: 1, x: 50 << 8, y: 50 << 8, act_life: life, f26: len, f71: orient, ..Ent::default() }
}

#[test]
fn riser_instant_build_along_x() {
    let mut g = gen(2);
    g.ent[1] = riser(0, 3, 0);
    assert!(g.mc2_riser_tick(1));
    assert_eq!((g.ent[1].f26, g.ent[1].f44, g.ent[1].act_life), (4, 48, 3));
    // +48 over cols 49..52, rows 49 and 50.
    for x in 49..=52u8 {
        for y in 49..=50u8 {
            assert_eq!(g.t.height[tile(x, y)], 48, "({x}, {y})");
        }
    }
    assert_eq!(g.t.height[tile(53, 50)], 0);
    assert_eq!(g.t.height[tile(49, 51)], 0);
    // Ridge stamp (type 8, angle 1) plus the dirty bit.
    assert_eq!((g.t.tile_type[tile(48, 48)], g.t.angle[tile(48, 48)]), (8, 0x81));
    assert_eq!((g.t.tile_type[tile(53, 50)], g.t.angle[tile(53, 50)]), (0, 0x80));
    assert_eq!(g.t.angle[tile(60, 50)], 0);
    // Shading along row 50.
    assert_eq!(g.t.shading[tile(48, 50)], 32);
    assert_eq!(g.t.shading[tile(50, 50)], 40);
    assert!(g.sounds.is_empty());
    // Idle afterwards.
    assert!(!g.mc2_riser_tick(1));
}

#[test]
fn riser_animated_raise_ticks() {
    let mut g = gen(2);
    g.ent[1] = riser(1, 10, 0);
    assert!(g.mc2_riser_tick(1));
    assert_eq!(g.sounds, vec![(47, 1)]);
    assert_eq!((g.ent[1].f44, g.ent[1].act_life), (1, 1));
    // +1 on cols 52..55 of rows 49 and 50; the ends stay low.
    assert_eq!(g.t.height[tile(52, 50)], 1);
    assert_eq!(g.t.height[tile(55, 49)], 1);
    assert_eq!(g.t.height[tile(51, 50)], 0);
    assert_eq!(g.t.height[tile(56, 50)], 0);
    // With the counter at 48 the next tick only switches to idle.
    g.ent[1].f44 = 48;
    assert!(!g.mc2_riser_tick(1));
    assert_eq!(g.ent[1].act_life, 3);
    assert_eq!(g.sounds.len(), 1);
}

#[test]
fn riser_trigger_pokes_the_co_located_riser() {
    let mut g = gen(4);
    g.ent[1] = riser(3, 4, 0);
    g.ent[2] = Ent { class64: 10, model65: 64, tick70: 0x45, x: 50 << 8, y: 50 << 8, ..Ent::default() };
    // The trigger's cell: (x - 128) >> 8 = 49.
    g.map_entity[tile(49, 49)] = 3;
    g.ent[3] = Ent { next20: 1, ..Ent::default() };
    assert_eq!(g.mc2_find_riser(50 << 8, 50 << 8), Some(1));
    g.mc2_riser_trigger_tick(2);
    assert_eq!(g.ent[1].act_life, 1);
    assert_eq!(g.ent[2].flags & 0x400, 0x400);
    g.ent[2].tick70 = 0x44;
    g.mc2_riser_trigger_tick(2);
    assert_eq!(g.ent[1].act_life, 2);
    assert_eq!(g.mc2_find_riser(60 << 8, 50 << 8), None);
}

#[test]
fn riser_raise_takes_48_ticks_then_builds() {
    let mut g = gen(2);
    g.ent[1] = riser(1, 10, 0);
    for tick in 0..48 {
        assert!(g.mc2_riser_tick(1), "tick {tick}");
        assert_eq!(g.ent[1].act_life, 1);
    }
    assert_eq!(g.ent[1].f44, 48);
    assert_eq!(g.t.height[tile(53, 49)], 48);
    assert!(!g.mc2_riser_tick(1));
    assert_eq!(g.ent[1].act_life, 3);
    assert_eq!(g.sounds.len(), 48);
    // Lowering runs back down and settles as removed.
    g.ent[1].act_life = 2;
    for _ in 0..48 {
        assert!(g.mc2_riser_tick(1));
    }
    assert_eq!((g.ent[1].f44, g.ent[1].act_life), (0, 2));
    assert!(!g.mc2_riser_tick(1));
    assert_eq!(g.ent[1].act_life, 4);
    let before = g.ent[1];
    assert!(!g.mc2_riser_tick(1));
    assert_eq!(g.ent[1], before);
}

#[test]
fn pillar_retract_relaxes_toward_the_flanks_and_unseals() {
    let mut g = cave(2);
    g.ent[1] = pillar(2);
    for x in 96..=103u8 {
        for y in [98u8, 101, 102] {
            g.t.height[tile(x, y)] = 20;
            g.t.ceiling[tile(x, y)] = 80;
        }
        for y in 99..=100u8 {
            g.t.height[tile(x, y)] = 60;
            g.t.ceiling[tile(x, y)] = 60;
            g.t.angle[tile(x, y)] = 8;
        }
    }
    assert!(g.mc2_pillar_tick(1));
    assert_eq!(g.ent[1].act_life, 2);
    for y in 99..=100u8 {
        for x in 98..=101u8 {
            let t = tile(x, y);
            assert_eq!((g.t.height[t], g.t.ceiling[t], g.t.angle[t] & 8), (59, 61, 0), "({x}, {y})");
        }
    }
    // Outside the footprint nothing moved.
    assert_eq!((g.t.height[tile(97, 99)], g.t.angle[tile(97, 99)]), (60, 8));
}

#[test]
fn riser_instant_build_in_a_cave_seals_the_raised_strip() {
    let mut g = gen(2);
    g.t.ceiling = vec![40; 65536];
    g.ent[1] = riser(0, 3, 0);
    assert!(g.mc2_riser_tick(1));
    // Raised above the ceiling: pinned to floor - 1 and sealed.
    let t = tile(50, 50);
    assert_eq!((g.t.height[t], g.t.ceiling[t], g.t.angle[t] & 8), (48, 47, 8));
    // Stamped but not raised: open.
    let t = tile(48, 50);
    assert_eq!((g.t.height[t], g.t.ceiling[t], g.t.angle[t] & 8), (0, 40, 0));
}

#[test]
fn day_shade_inverts_any_byte_at_night() {
    let mut g = gen(1);
    assert_eq!(g.day_shade(30), 30);
    assert_eq!(g.day_shade(200), 200);
    g.mc2_night_shade = true;
    assert_eq!(g.day_shade(30), 34);
    assert_eq!(g.day_shade(64), 0);
    assert_eq!(g.day_shade(200), 120);
}

#[test]
fn settle_stays_between_the_lowest_and_highest_cell() {
    let mut g = gen(1);
    let t = tile(20, 20);
    g.t.angle[t] = 1;
    g.t.height[t] = 30;
    let ring = [(19u8, 19u8, 10u8), (20, 19, 90), (21, 19, 12), (19, 20, 40), (21, 20, 33), (19, 21, 25), (20, 21, 31), (21, 21, 29)];
    for (x, y, h) in ring {
        g.t.height[tile(x, y)] = h;
    }
    let r = g.flood_settle_cell(20, 20);
    // sum = 270, mean 33; own - min = 20 > 10: the mean.
    assert_eq!(r, 33);
    assert!((10..=90).contains(&r));
}
