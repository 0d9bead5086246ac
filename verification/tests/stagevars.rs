use std::collections::HashMap;

use mgc_sim::mc2::stagevars::abs16;
use mgc_sim::world::{Ent, Gen, Mc2Held, Mc2StageVar, Planes, World};

fn world(n: usize, models: Vec<u8>) -> World {
    let g = Gen {
        ent: vec![Ent::default(); n],
        t: Planes {
            height: vec![0; 65536],
            tile_type: vec![0; 65536],
            shading: vec![0; 65536],
            angle: vec![0; 65536],
            ceiling: vec![],
        },
        map_entity: vec![0; 65536],
        mc2_night_shade: false,
        castle_alert: 0,
        player_aggro: 0,
        player_danger: 0,
        player_invisible: false,
        kills: 0,
        mc2_wanted: HashMap::new(),
        rival_ents: vec![],
        mc2_life_scale: vec![0x100],
        build_tab: vec![],
        mc2_sprite_ext: vec![],
        sprite_params: vec![],
        sprite_stats: vec![],
        sounds: vec![],
        spawn_count: vec![0; 32],
    };
    World { g, mc2_stagevars: vec![], mc2_sv_held: vec![], thing_models: models, mc2_doom_level: false, mc2_doom_meter: 0, mc2_apocalypse: false }
}

fn var(kind: u8, flags: u8) -> Mc2StageVar {
    Mc2StageVar {
        kind,
        flags,
        chain: 0,
        cadence: 0,
        hold_word: 0,
        hold_subtype: 0,
        point: (0, 0),
        watch_template: 0,
        watch_model: 0,
        watch_ent: 0,
        param: 0,
    }
}

fn creature(model: u8, thing: u16) -> Ent {
    Ent { class64: 5, model65: model, thing_slot: thing, ..Ent::default() }
}

#[test]
fn loader_decodes_and_holds_live_spawns() {
    let mut w = world(3, vec![0, 5, 5, 7]);
    // Already in the pool: a model-7 creature from template 3.
    w.g.ent[1] = creature(7, 3);
    w.g.ent[1].x = 0x3000;
    let recs: Vec<(i8, i8, u8, u8, u32)> = vec![
        (0, 0, 0, 0, 0),
        // Kind 1 by subtype (byte0 0x81), template 3, fly-point bytes.
        (0x81u8 as i8, 0, 3, 0, 0x0020_0010),
        // Kind 6 watch-model (0x46), chain 1, timer 30.
        (0x46, 1, 1, 0, 30),
        (0, 0, 0, 0, 0),
    ];
    w.set_mc2_stagevars(&recs);
    assert_eq!(w.mc2_stagevars.len(), 3);
    let v1 = w.mc2_stagevars[1];
    assert_eq!((v1.kind, v1.flags, v1.hold_word, v1.hold_subtype), (1, 0x01, 3, 7));
    assert_eq!((v1.point, v1.watch_template, v1.param), ((0x1000, 0x2000), 0x10, 0x10));
    let v2 = w.mc2_stagevars[2];
    assert_eq!((v2.kind, v2.flags, v2.chain, v2.hold_word, v2.param), (6, 0x02, 1, 1, 30));
    // The live creature is held on slot 1: phase-7 wait, kind in site_z.
    assert_eq!((w.g.ent[1].tick70, w.g.ent[1].site_z), (7 * 8 + 7, 1));
    assert_eq!(w.mc2_sv_held, vec![Mc2Held { ent: 1, slot: 1, timer: 0 }]);
    // Nothing live: no table at all.
    let mut w2 = world(2, vec![]);
    w2.set_mc2_stagevars(&[(0, 0, 0, 0, 0), (0x10, 0, 0, 0, 0)]);
    assert!(w2.mc2_stagevars.is_empty());
}

#[test]
fn proximity_gate_releases_to_the_active_action() {
    let mut w = world(3, vec![0, 4]);
    let mut v = var(1, 0);
    v.hold_word = 1;
    v.point = (0x1000, 0x1000);
    w.mc2_stagevars = vec![var(0, 0), v];
    w.g.ent[2] = creature(4, 1);
    w.g.ent[2].x = 0x2000;
    w.g.ent[2].y = 0x1000;
    w.mc2_stagevar_attach(2, 1);
    assert_eq!((w.g.ent[2].tick70, w.g.ent[2].site_z), (39, 1));
    w.mc2_stagevar_tick();
    assert_eq!(w.g.ent[2].tick70, 39);
    // Within 2048 on both axes.
    w.g.ent[2].x = 0x1000 + 2048;
    w.mc2_stagevar_tick();
    assert_eq!((w.g.ent[2].tick70, w.g.ent[2].site_z), (33, 0));
    assert!(w.mc2_sv_held.is_empty());
}

#[test]
fn timer_gate_counts_down() {
    let mut w = world(2, vec![0, 2]);
    let mut v = var(6, 0);
    v.hold_word = 1;
    v.param = 2;
    w.mc2_stagevars = vec![var(0, 0), v];
    w.g.ent[1] = creature(2, 1);
    w.mc2_stagevar_attach(1, 1);
    assert_eq!(w.mc2_sv_held, vec![Mc2Held { ent: 1, slot: 1, timer: 2 }]);
    w.mc2_stagevar_tick();
    assert_eq!(w.mc2_sv_held[0].timer, 1);
    assert_eq!(w.g.ent[1].tick70, 23);
    w.mc2_stagevar_tick();
    assert_eq!(w.g.ent[1].tick70, 17);
    assert!(w.mc2_sv_held.is_empty());
}

#[test]
fn cadence_skips_every_fourth_hold() {
    let mut w = world(2, vec![0, 1]);
    w.mc2_stagevars = vec![var(0, 0), var(3, 0x20)];
    w.g.ent[1] = creature(1, 1);
    for round in 0..4u8 {
        w.mc2_stagevar_arm(1, 1);
        let held = w.g.ent[1].site_z != 0;
        assert_eq!(held, round != 3, "round {round}");
        assert_eq!(w.mc2_stagevars[1].cadence, round + 1);
    }
    assert_eq!(w.g.ent[1].tick70, 9);
}

#[test]
fn chained_release_re_holds_on_the_chain_slot() {
    let mut w = world(2, vec![0, 1]);
    let mut v1 = var(3, 0);
    v1.chain = 2;
    w.mc2_stagevars = vec![var(0, 0), v1, var(4, 0)];
    w.g.ent[1] = creature(1, 1);
    w.mc2_stagevar_arm(1, 1);
    w.mc2_stagevar_release(1, 1, false);
    assert_eq!(w.mc2_sv_held, vec![Mc2Held { ent: 1, slot: 2, timer: 0 }]);
    assert_eq!(w.g.ent[1].site_z, 4);
    // A chain step never re-chains.
    w.mc2_stagevar_release(1, 1, true);
    assert!(w.mc2_sv_held.is_empty());
    assert_eq!((w.g.ent[1].tick70, w.g.ent[1].site_z), (9, 0));
}

#[test]
fn death_watch_binds_and_fires() {
    let mut w = world(4, vec![0, 1, 2]);
    // Slot 1 holds template 1; slot 2 (kind 3) watches template 2's
    // death and releases nothing itself.
    let mut hold = var(3, 0);
    hold.hold_word = 1;
    let mut watch = var(3, 0);
    watch.hold_word = 9;
    watch.watch_template = 2;
    hold.watch_template = 2;
    w.mc2_stagevars = vec![var(0, 0), hold, watch];
    w.g.ent[1] = creature(1, 1);
    w.g.ent[2] = creature(2, 2);
    w.mc2_stagevar_attach(1, 1);
    w.mc2_stagevar_attach(2, 2);
    assert_eq!((w.mc2_stagevars[1].watch_ent, w.mc2_stagevars[2].watch_ent), (2, 2));
    w.mc2_stagevar_tick();
    assert_eq!(w.mc2_stagevars[1].flags & 4, 0);
    assert_eq!(w.g.ent[1].site_z, 3);
    w.g.ent[2].act_life = -1;
    w.mc2_stagevar_tick();
    assert_eq!(w.mc2_stagevars[1].flags & 4, 4);
    assert_eq!((w.g.ent[1].tick70, w.g.ent[1].site_z), (9, 0));
}

#[test]
fn disposition_arm_decays_in_two_ticks() {
    let mut w = world(2, vec![]);
    let mut v = var(7, 0);
    v.param = 5;
    let mut model_watch = var(4, 0x06);
    model_watch.watch_model = 9;
    w.mc2_stagevars = vec![var(0, 0), v, model_watch];
    w.mc2_stagevar_arm_disposition(4);
    assert_eq!(w.mc2_stagevars[1].flags, 0);
    w.mc2_stagevar_arm_disposition(5);
    assert_eq!(w.mc2_stagevars[1].flags, 0x18);
    w.mc2_stagevar_tick();
    assert_eq!(w.mc2_stagevars[1].flags, 0x08);
    w.mc2_stagevar_tick();
    assert_eq!(w.mc2_stagevars[1].flags, 0);
    // Re-arming the watchers un-fires the model watch.
    w.mc2_stagevar_rearm_watchers();
    assert_eq!(w.mc2_stagevars[2].flags, 0x02);
}

#[test]
fn extinction_and_death_oracles() {
    let mut w = world(4, vec![]);
    w.g.ent[1] = creature(6, 0);
    assert!(!w.mc2_model_extinct(6));
    assert!(w.mc2_model_extinct(7));
    w.g.ent[1].tick70 = 0xE8;
    assert!(w.mc2_model_extinct(6));
    w.g.ent[1].tick70 = 0;
    w.g.ent[1].flags = 0x400;
    assert!(w.mc2_model_extinct(6));
    // Slot 0 never counts.
    w.g.ent[0] = creature(8, 0);
    assert!(w.mc2_model_extinct(8));
    assert!(w.mc2_ent_dead(2));
    assert!(w.mc2_ent_dead(99));
    w.g.ent[2] = creature(1, 0);
    assert!(!w.mc2_ent_dead(2));
    assert_eq!(w.mc2_table_model(5), None);
}

#[test]
fn abs16_on_wrapped_differences() {
    assert_eq!(abs16(10, 3), 7);
    assert_eq!(abs16(3, 10), 7);
    assert_eq!(abs16(0, 65535), 1);
    assert_eq!(abs16(0, 32768), 32768);
}

#[test]
fn hold_then_release_matches_a_direct_release() {
    let mut w = world(3, vec![0, 3]);
    let mut v = var(6, 0);
    v.param = 9;
    w.mc2_stagevars = vec![var(0, 0), v];
    w.mc2_sv_held = vec![Mc2Held { ent: 2, slot: 1, timer: 4 }];
    w.g.ent[1] = creature(3, 1);
    let mut direct = world(3, vec![0, 3]);
    direct.mc2_stagevars = w.mc2_stagevars.clone();
    direct.mc2_sv_held = w.mc2_sv_held.clone();
    direct.g.ent[1] = w.g.ent[1];
    w.mc2_stagevar_arm(1, 1);
    assert_eq!(w.mc2_sv_held.last(), Some(&Mc2Held { ent: 1, slot: 1, timer: 9 }));
    w.mc2_stagevar_release(1, 1, true);
    direct.mc2_stagevar_release(1, 1, true);
    assert_eq!(w.g.ent, direct.g.ent);
    assert_eq!(w.mc2_sv_held, direct.mc2_sv_held);
    assert_eq!(w.mc2_stagevars[1].cadence, 1);
}

#[test]
fn loader_ignores_a_live_slot_zero() {
    let mut w = world(2, vec![0, 4]);
    w.g.ent[1] = creature(4, 1);
    // Only record 0 is live: slot 0 is unused, so nothing loads.
    w.set_mc2_stagevars(&[(0x01, 0, 1, 0, 0), (0, 0, 0, 0, 0), (0x10, 0, 0, 0, 0)]);
    assert!(w.mc2_stagevars.is_empty());
    assert!(w.mc2_sv_held.is_empty());
    assert_eq!(w.g.ent[1].site_z, 0);
    // With slot 2 live, slot 0 loads as an empty slot and holds nothing.
    w.set_mc2_stagevars(&[(0x03, 0, 1, 0, 0), (0, 0, 0, 0, 0), (0x04, 0, 9, 0, 0)]);
    assert_eq!(w.mc2_stagevars.len(), 3);
    assert_eq!(w.mc2_stagevars[0], var(0, 0));
    assert!(w.mc2_sv_held.is_empty());
}
