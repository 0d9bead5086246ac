use mgc_sim::spells::{icon_sprite, spell_def, toggle_pair, SpellId, DISPLAY_ORDER, SPELL_COUNT};

#[test]
fn display_order_is_a_permutation() {
    let mut seen = [false; SPELL_COUNT];
    for &t in &DISPLAY_ORDER {
        assert!(!seen[t as usize]);
        seen[t as usize] = true;
    }
}

#[test]
fn display_order_covers_every_spell() {
    let mut seen = [false; SPELL_COUNT];
    for &t in &DISPLAY_ORDER {
        seen[t as usize] = true;
    }
    assert!(seen.iter().all(|&s| s));
}

#[test]
fn toggle_pair_is_forward_and_backward_thrust() {
    let (a, b) = toggle_pair();
    assert_eq!((a, b), (SpellId(2), SpellId(21)));
}

#[test]
fn spell_names_and_defs_agree_on_every_id() {
    for id in 0..SPELL_COUNT as u8 {
        let s = SpellId(id);
        assert!(!s.name().is_empty());
        let _ = spell_def(s);
        let _ = icon_sprite(s);
    }
}
