use std::collections::HashMap;

use mgc_sim::mc2::doomsday::{DoomCalls, DoomEvents};
use mgc_sim::world::{Ent, Gen, MobCtx, Planes, SpriteStats, World, F_DEAD, PLAYER_TARGET};

fn gen(n: usize) -> Gen {
    Gen {
        ent: vec![Ent::default(); n],
        t: Planes {
            height: vec![0; 65536],
            tile_type: vec![0; 65536],
            shading: vec![0; 65536],
            angle: vec![0; 65536],
            ceiling: vec![],
        },
        map_entity: vec![0; 65536],
        mc2_night_shade: false,
        castle_alert: 0,
        player_aggro: 0,
        player_danger: 0,
        player_invisible: false,
        kills: 0,
        mc2_wanted: HashMap::new(),
        rival_ents: vec![],
        mc2_life_scale: vec![0x100],
        build_tab: vec![],
        mc2_sprite_ext: vec![],
        sprite_params: vec![],
        sprite_stats: vec![SpriteStats { draw_type: 0, width: 10, height: 20 }; 346],
        sounds: vec![],
        spawn_count: vec![0; 32],
    }
}

fn world(n: usize) -> World {
    World {
        g: gen(n),
        mc2_stagevars: vec![],
        mc2_sv_held: vec![],
        thing_models: vec![],
        mc2_doom_level: true,
        mc2_doom_meter: 0,
        mc2_apocalypse: false,
    }
}

fn pyramid(state: u8) -> Ent {
    Ent { class64: 5, model65: 10, f71: state, act_life: 100, max_life: 200, x: 40 << 8, y: 50 << 8, ..Ent::default() }
}

fn quiet() -> DoomEvents {
    DoomEvents {
        devoured: false,
        attacked: false,
        draw: 0,
        summon_draws: (0, 0),
        meteor: None,
        dome: None,
        ground: 0,
        toward: 0,
    }
}

// Life under 10 keeps the facing step from turning, so these tests read
// the machine alone unless they set life.
fn ctx() -> MobCtx {
    MobCtx { px: 0, py: 0, pz: 0, pyaw: 0 }
}

#[test]
fn pick_after_a_devour_fires_the_beam_only_when_armed() {
    let mut w = world(3);
    w.g.ent[1] = Ent { f44: 3, f58: 1, ..pyramid(8) };
    w.mc2_pyramid_pick_summon(1, 0, 0);
    let e = w.g.ent[1];
    assert_eq!((e.f68, e.f38, e.f26, e.f44), (7, 24, 32, 0));
    w.g.ent[1] = Ent { f44: 1, f58: 0, ..pyramid(8) };
    w.mc2_pyramid_pick_summon(1, 0, 0);
    assert_eq!((w.g.ent[1].f68, w.g.ent[1].f44), (0, 0));
}

#[test]
fn pick_rolls_a_creature_ring_under_its_population_cap() {
    let mut w = world(3);
    w.g.ent[1] = pyramid(8);
    // 40 % 70 = 40: the model-19 ring (none alive yet).
    w.mc2_pyramid_pick_summon(1, 40, 0);
    let e = w.g.ent[1];
    assert_eq!((e.f68, e.f38, e.f26, e.f50, e.f44), (6, 8, 8, 256, 2));
    // 49: the model-0 ring, 3 repeats at stride 682.
    w.g.ent[1] = pyramid(8);
    w.mc2_pyramid_pick_summon(1, 49, 0);
    assert_eq!((w.g.ent[1].f68, w.g.ent[1].f38, w.g.ent[1].f50), (3, 3, 682));
}

#[test]
fn pick_falls_back_to_a_burst_when_the_population_is_full() {
    let mut w = world(6);
    w.g.ent[1] = pyramid(8);
    for j in 2..6 {
        w.g.ent[j] = Ent { class64: 5, model65: 0, ..Ent::default() };
    }
    // 49 asks for model 0, but four are out: the second roll decides.
    w.mc2_pyramid_pick_summon(1, 49, 8);
    assert_eq!((w.g.ent[1].f68, w.g.ent[1].f38), (2, 8));
    w.g.ent[1] = pyramid(8);
    w.mc2_pyramid_pick_summon(1, 49, 28);
    assert_eq!((w.g.ent[1].f68, w.g.ent[1].f38, w.g.ent[1].f26), (7, 24, 32));
    w.g.ent[1] = pyramid(8);
    w.mc2_pyramid_pick_summon(1, 49, 26);
    assert_eq!((w.g.ent[1].f68, w.g.ent[1].f38), (8, 5));
}

#[test]
fn face_snaps_near_the_players_yaw_and_turns_otherwise() {
    let mut g = gen(2);
    let c = MobCtx { px: 0, py: 0, pz: 0, pyaw: 100 };
    g.ent[1] = Ent { act_life: 50, f30: 100, ..Ent::default() };
    g.mc2_pyramid_face(1, &c, 0x1_0123, 0);
    // Bucket 0: snap to the player's yaw + 384; z keeps 16 bits.
    assert_eq!((g.ent[1].f30, g.ent[1].z), (484, 0x0123));
    // Bucket 8: mode 0 turns toward the bearing by at most the rate.
    g.ent[1] = Ent { act_life: 50, f30: 1124, f46: 22, f69: 0, ..Ent::default() };
    g.mc2_pyramid_face(1, &c, 0, 1024);
    assert_eq!((g.ent[1].f34, g.ent[1].f30), (1024, 1102));
    // Dying: only the ground clamp.
    g.ent[1] = Ent { act_life: 5, f30: 700, ..Ent::default() };
    g.mc2_pyramid_face(1, &c, 77, 0);
    assert_eq!((g.ent[1].f30, g.ent[1].z), (700, 77));
}

#[test]
fn off_a_doom_level_the_pyramid_dies_at_once() {
    let mut w = world(2);
    w.mc2_doom_level = false;
    w.g.ent[1] = Ent { tick70: 82, ..pyramid(0) };
    let calls = w.mc2_doomsday_tick(1, &ctx(), &quiet());
    assert_eq!(calls, DoomCalls { freed: vec![], attack: None, summon: false });
    assert_eq!((w.g.ent[1].tick70, w.g.ent[1].flags & F_DEAD, w.g.ent[1].f71), (80, F_DEAD, 0));
    assert_eq!(w.mc2_doom_meter, 0);
}

#[test]
fn activation_targets_the_player_and_calls_the_wipe() {
    let mut w = world(4);
    w.g.ent[1] = pyramid(0);
    // A creature and a scenery piece on a cell of the footprint.
    w.g.map_entity[50 * 256 + 40] = 2;
    w.g.ent[2] = Ent { class64: 5, model65: 3, act_life: 40, next20: 3, ..Ent::default() };
    w.g.ent[3] = Ent { class64: 2, ..Ent::default() };
    let calls = w.mc2_doomsday_tick(1, &ctx(), &quiet());
    assert_eq!(calls, DoomCalls { freed: vec![3], attack: Some((40, 50)), summon: false });
    assert_eq!(w.g.ent[2].act_life, -1);
    let e = w.g.ent[1];
    assert_eq!((e.f71, e.f44, e.f26, e.f46, e.f146), (1, 8, 15, 22, PLAYER_TARGET));
    assert_eq!(w.mc2_doom_meter, 60);
    // The attack pass finished: on to the wind-up.
    let ev = DoomEvents { attacked: true, ..quiet() };
    w.mc2_doomsday_tick(1, &ctx(), &ev);
    assert_eq!((w.g.ent[1].f71, w.g.ent[1].f44), (4, 0x88));
}

#[test]
fn the_dwell_roll_scales_with_life() {
    let mut w = world(2);
    w.g.ent[1] = pyramid(2);
    // 26 * 100 / 200 = 13, less draw & 7 = 3.
    let ev = DoomEvents { draw: 11, ..quiet() };
    w.mc2_doomsday_tick(1, &ctx(), &ev);
    let e = w.g.ent[1];
    assert_eq!((e.f71, e.f26, e.f46, e.type86, e.f80), (3, 10, 22, 341, 5));
    // At full life the roll tops out at 26.
    w.g.ent[1] = Ent { act_life: 200, ..pyramid(2) };
    w.mc2_doomsday_tick(1, &ctx(), &DoomEvents { draw: 0, ..quiet() });
    assert_eq!(w.g.ent[1].f26, 26);
}

#[test]
fn the_intake_lands_in_the_dwell_states() {
    let mut w = world(2);
    w.g.ent[1] = Ent { f58: 1, f26: 5, ..pyramid(5) };
    w.g.ent[1].mail[0] = (30, 7);
    w.mc2_doomsday_tick(1, &ctx(), &quiet());
    let e = w.g.ent[1];
    assert_eq!((e.act_life, e.f40, e.mail[0], e.f26), (70, 7, (30, 0), 4));
}

#[test]
fn the_death_script_kills_every_creature_and_resets_life() {
    let mut w = world(4);
    w.g.ent[1] = Ent { f26: 1, ..pyramid(14) };
    w.g.ent[2] = Ent { class64: 5, model65: 3, act_life: 40, ..Ent::default() };
    w.g.ent[3] = Ent { class64: 2, act_life: 40, ..Ent::default() };
    w.mc2_doomsday_tick(1, &ctx(), &quiet());
    let e = w.g.ent[1];
    assert_eq!((e.f71, e.f26, e.act_life, e.max_life), (15, 60, 140, 140));
    assert_eq!((w.g.ent[2].f38, w.g.ent[2].act_life), (PLAYER_TARGET, 140));
    assert_eq!(w.g.ent[3].act_life, 140);
    assert_eq!(w.g.sounds, vec![(10, 1), (63, 1)]);
}

#[test]
fn the_last_tick_raises_the_apocalypse_dome() {
    let mut w = world(4);
    w.mc2_doom_meter = 60;
    w.g.ent[1] = Ent { f26: 1, f63: 1, ..pyramid(15) };
    let ev = DoomEvents { dome: Some(3), ..quiet() };
    w.mc2_doomsday_tick(1, &ctx(), &ev);
    assert_eq!(w.g.ent[1].flags & F_DEAD, F_DEAD);
    assert_eq!((w.g.ent[3].act_life, w.g.ent[3].max_life, w.g.ent[3].id24), (32, 11, PLAYER_TARGET));
    assert!(w.mc2_apocalypse);
    assert_eq!(w.mc2_doom_meter, 0);
    // f63 & 3 != 0: no rumble this frame.
    assert!(w.g.sounds.is_empty());
}

#[test]
fn the_death_script_opens_with_the_doomsday_sphere() {
    let mut w = world(4);
    w.g.ent[1] = Ent { act_life: 5, ..pyramid(3) };
    w.mc2_doomsday_tick(1, &ctx(), &quiet());
    assert_eq!(w.g.ent[1].f71, 12);
    w.g.ent[2] = Ent { z: 99, ..Ent::default() };
    let ev = DoomEvents { meteor: Some(2), ..quiet() };
    w.mc2_doomsday_tick(1, &ctx(), &ev);
    assert_eq!((w.g.ent[1].f71, w.g.ent[1].f26), (13, 32));
    let m = w.g.ent[2];
    assert_eq!((m.z, m.act_life, m.max_life, m.id24), (0, 70, 70, PLAYER_TARGET));
}

#[test]
fn the_death_script_only_moves_forward() {
    let mut w = world(2);
    w.g.ent[1] = Ent { f26: 2, ..pyramid(13) };
    let mut seen = vec![];
    for _ in 0..200 {
        w.mc2_doomsday_tick(1, &ctx(), &quiet());
        seen.push(w.g.ent[1].f71);
        if w.g.ent[1].flags & F_DEAD != 0 {
            break;
        }
    }
    assert!(seen.windows(2).all(|p| p[0] <= p[1] && p[1] <= 15));
    assert_eq!(seen.first(), Some(&13));
    assert_eq!(seen.last(), Some(&15));
    assert_eq!(w.g.ent[1].flags & F_DEAD, F_DEAD);
}

#[test]
fn the_pyramid_spawns_on_the_ground_with_huge_life() {
    let mut g = gen(4);
    g.sprite_params = vec![(40, 60); 342];
    let r = g.mc2_spawn_doomsday(0x1000, 0x2000, 2, 0x1_0005, Some(3));
    assert_eq!(r, Some((3, (0x1000, 0x2000, 5))));
    let e = g.ent[3];
    assert_eq!((e.class64, e.model65, e.tick70, e.max_life, e.act_life, e.f140), (5, 10, 80, 300_000, 300_000, 150_000));
    assert_eq!((e.f28, e.f44, e.f56, e.row156, e.f58, e.f66, e.f63), (1, 0, 1, 107, 64, 3, 2));
    assert_eq!((e.type86, e.f78, e.f80, e.f82, e.f84), (341, 512, 1024, 1024, 1280));
    assert_eq!(g.mc2_spawn_doomsday(0, 0, 0, 0, None), None);
}
