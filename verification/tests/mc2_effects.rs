use std::collections::HashMap;

use mgc_sim::mc2::proj::DANGER_TICKS;
use mgc_sim::mc2::tail::AURA_RANGE_SQ;
use mgc_sim::world::{Ent, Gen, MailTarget, Planes, World, PLAYER_TARGET};

fn gen(n: usize) -> Gen {
    Gen {
        ent: vec![Ent::default(); n],
        t: Planes {
            height: vec![0; 65536],
            tile_type: vec![0; 65536],
            shading: vec![0; 65536],
            angle: vec![0; 65536],
            ceiling: vec![],
        },
        map_entity: vec![0; 65536],
        mc2_night_shade: false,
        castle_alert: 0,
        player_aggro: 0,
        player_danger: 0,
        player_invisible: false,
        kills: 0,
        mc2_wanted: HashMap::new(),
        rival_ents: vec![],
        mc2_life_scale: vec![0x100],
        build_tab: vec![],
        mc2_sprite_ext: vec![],
        sprite_params: vec![],
        sprite_stats: vec![],
        sounds: vec![],
        spawn_count: vec![0; 32],
    }
}

fn creature(x: u16, y: u16) -> Ent {
    Ent { class64: 5, x, y, ..Ent::default() }
}

#[test]
fn aura_tags_creatures_in_reach_once() {
    let mut g = gen(7);
    g.ent[1] = Ent { class64: 10, x: 0x1000, y: 0x1000, act_life: 5, id24: 1, ..Ent::default() };
    // d² = 30² = 900 -> 30.
    g.ent[2] = creature(0x1000 + 30, 0x1000);
    // d² = 3000² -> capped at 42.
    g.ent[3] = creature(0x1000 + 3000, 0x1000);
    // Out of reach (d² = 3584² = 0xC40000 exactly).
    g.ent[4] = creature(0x1000 + 3584, 0x1000);
    // Already tagged by someone else.
    g.ent[5] = creature(0x1000, 0x1000);
    g.ent[5].mail[4] = (7, 9);
    // Not a creature.
    g.ent[6] = Ent { class64: 2, x: 0x1000, y: 0x1000, ..Ent::default() };
    g.mc2_aura_tick(1);
    assert_eq!(g.ent[1].act_life, 4);
    assert_eq!(g.ent[2].mail[4], (30, 1));
    assert_eq!(g.ent[3].mail[4], (42, 1));
    assert_eq!(g.ent[4].mail[4], (0, 0));
    assert_eq!(g.ent[5].mail[4], (7, 9));
    assert_eq!(g.ent[6].mail[4], (0, 0));
    assert_eq!(3584 * 3584, AURA_RANGE_SQ);
}

#[test]
fn aura_below_zero_life_despawns_without_tagging() {
    let mut g = gen(3);
    g.ent[1] = Ent { class64: 10, act_life: -1, id24: 1, ..Ent::default() };
    g.ent[2] = creature(0, 0);
    g.mc2_aura_tick(1);
    assert_eq!(g.ent[1].act_life, -2);
    assert_eq!(g.ent[1].flags & 0x400, 0x400);
    assert_eq!(g.ent[2].mail[4], (0, 0));
}

#[test]
fn splash_sounds_once_then_despawns() {
    let mut g = gen(3);
    g.ent[2].act_life = 1;
    g.mc2_splash_tick(2);
    assert_eq!(g.sounds, vec![(27, 2)]);
    assert_eq!((g.ent[2].act_life, g.ent[2].frame88, g.ent[2].flags), (0, 1, 2));
    g.mc2_splash_tick(2);
    assert_eq!(g.sounds.len(), 1);
    assert_eq!((g.ent[2].act_life, g.ent[2].frame88), (-1, 2));
    g.mc2_splash_tick(2);
    assert_eq!(g.ent[2].flags & 0x400, 0x400);
    assert_eq!(g.ent[2].frame88, 2);
    g.ent[2].act_life = 5;
    g.ent[2].frame88 = 255;
    g.mc2_splash_tick(2);
    assert_eq!(g.ent[2].frame88, 255);
}

#[test]
fn pyramid_mail_clamps_damage_and_never_dies() {
    let mut g = gen(2);
    g.ent[1].f58 = 1;
    g.ent[1].act_life = 1000;
    g.ent[1].mail[0] = (5000, 4);
    g.mc2_pyramid_mail(1);
    assert_eq!((g.ent[1].act_life, g.ent[1].f40, g.ent[1].mail[0]), (700, 4, (5000, 0)));
    // A zero amount still costs 1; a negative word too.
    g.ent[1].mail[0] = (0, 3);
    g.mc2_pyramid_mail(1);
    assert_eq!(g.ent[1].act_life, 699);
    g.ent[1].mail[0] = (0xFFFF_FFFF, 3);
    g.mc2_pyramid_mail(1);
    assert_eq!(g.ent[1].act_life, 698);
    // Pinned at 8 below 10.
    g.ent[1].act_life = 12;
    g.ent[1].mail[0] = (100, 3);
    g.mc2_pyramid_mail(1);
    assert_eq!(g.ent[1].act_life, 8);
    // Unarmed: mail stays, only the pin applies.
    g.ent[1].f58 = 0;
    g.ent[1].mail[0] = (100, 3);
    g.mc2_pyramid_mail(1);
    assert_eq!((g.ent[1].act_life, g.ent[1].mail[0]), (8, (100, 3)));
}

#[test]
fn kill_all_spares_the_pyramid_and_tears_down_branch_heads() {
    let mut g = gen(5);
    g.ent[0] = creature(0, 0);
    g.ent[1] = Ent { class64: 5, model65: 10, act_life: 50, ..Ent::default() };
    g.ent[2] = Ent { class64: 5, model65: 27, act_life: 50, ..Ent::default() };
    g.ent[3] = Ent { class64: 5, model65: 3, act_life: 50, ..Ent::default() };
    g.ent[4] = Ent { class64: 2, act_life: 50, ..Ent::default() };
    let mut w = World { g, mc2_stagevars: vec![], mc2_sv_held: vec![], thing_models: vec![], mc2_doom_level: false, mc2_doom_meter: 0, mc2_apocalypse: false };
    w.mc2_kill_all_creatures();
    assert_eq!(w.g.ent[0], creature(0, 0));
    assert_eq!((w.g.ent[1].act_life, w.g.ent[1].f38), (50, 0));
    assert_eq!((w.g.ent[2].tick70, w.g.ent[2].act_life, w.g.ent[2].f38), (221, 50, PLAYER_TARGET));
    assert_eq!((w.g.ent[3].act_life, w.g.ent[3].f38), (-1, PLAYER_TARGET));
    assert_eq!(w.g.ent[4].act_life, 50);
}

#[test]
fn projectile_filter_by_class_and_model() {
    let mut g = gen(4);
    g.ent[2] = Ent { class64: 5, model65: 7, ..Ent::default() };
    // Anything goes.
    g.ent[1].f66 = 0xFF;
    assert_eq!(g.mc2_proj_filter(1, Some(MailTarget::Pool(2))), Some(MailTarget::Pool(2)));
    // Class match, any model.
    g.ent[1].f66 = 5;
    g.ent[1].f67 = 0xFF;
    assert_eq!(g.mc2_proj_filter(1, Some(MailTarget::Pool(2))), Some(MailTarget::Pool(2)));
    assert_eq!(g.mc2_proj_filter(1, Some(MailTarget::Player)), None);
    // Model mismatch.
    g.ent[1].f67 = 8;
    assert_eq!(g.mc2_proj_filter(1, Some(MailTarget::Pool(2))), None);
    // The human is class 3 model 0.
    g.ent[1].f66 = 3;
    g.ent[1].f67 = 0;
    assert_eq!(g.mc2_proj_filter(1, Some(MailTarget::Player)), Some(MailTarget::Player));
    assert_eq!(g.mc2_proj_filter(1, None), None);
}

#[test]
fn target_class_model_pair() {
    let mut g = gen(3);
    g.ent[2] = Ent { class64: 5, model65: 21, ..Ent::default() };
    assert_eq!(g.mc2_target_cm(2), (5, 21));
    assert_eq!(g.mc2_target_cm(PLAYER_TARGET), (3, 0));
    assert_eq!(g.mc2_target_cm(3), (3, 0));
}

#[test]
fn danger_poke_only_for_the_player() {
    let mut g = gen(2);
    g.player_danger = 4;
    g.mc2_danger_poke(1);
    assert_eq!(g.player_danger, 4);
    g.mc2_danger_poke(PLAYER_TARGET);
    assert_eq!(g.player_danger, DANGER_TICKS);
}

#[test]
fn scenery_inbox_hands_the_mail_back() {
    let mut g = gen(2);
    assert_eq!(g.mc2_scenery_hit(1), None);
    g.ent[1].mail[0] = (12, 3);
    assert_eq!(g.mc2_scenery_hit(1), Some((12, 3)));
    assert_eq!(g.ent[1].mail[0], (12, 0));
    assert_eq!(g.mc2_scenery_hit(1), None);
}

#[test]
fn ground_probe_laws() {
    let mut g = gen(2);
    for (class, model, flags, expect) in [
        (2u8, 1u8, 0u32, true),
        (2, 3, 0, true),
        (2, 0, 0, false),
        (2, 4, 0, false),
        (2, 2, 0x400, false),
        (5, 2, 0, false),
    ] {
        g.ent[1] = Ent { class64: class, model65: model, flags, ..Ent::default() };
        assert_eq!(g.mc2_is_ground_probe(1), expect, "({class}, {model}, {flags:#x})");
    }
}
