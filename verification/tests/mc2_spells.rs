use mgc_sim::mc2::spells::{
    lang, level_init_patch, parse, spell_index, Mc2SpellRow, Mc2SubSpell, MC2_SPELL_ROWS,
};

#[test]
fn lang_resolves_per_tier_names() {
    assert_eq!(lang(159), "Your ability to cast %s has improved.");
    assert_eq!(lang(160), "FIREBALL");
    assert_eq!(lang(189), "Possession");
    assert_eq!(lang(190), "Mana Magnet");
    assert_eq!(lang(191), "Mana Lock");
    assert_eq!(lang(199), "Firefly Morph");
    assert_eq!(lang(265), "Cave In III");
    assert_eq!(lang(158), "");
    assert_eq!(lang(266), "");
}

#[test]
fn lang_is_empty_for_negative_ids() {
    assert_eq!(lang(-1), "");
    assert_eq!(lang(i16::MIN), "");
    assert_eq!(lang(i16::MAX), "");
}

#[test]
fn parses_synthetic_row() {
    let mut bytes = vec![0u8; MC2_SPELL_ROWS * 80];
    let base = 18 * 80 + 2 + 26;
    bytes[18 * 80] = 3;
    bytes[18 * 80 + 1] = 8;
    bytes[base..base + 4].copy_from_slice(&800i32.to_le_bytes());
    bytes[base + 24] = 9;
    let t = parse(&bytes).unwrap();
    assert_eq!(t.len(), MC2_SPELL_ROWS);
    assert_eq!((t[18].byte_0, t[18].enabled), (3, 8));
    assert_eq!(t[18].tiers[1].sub_spell, 800);
    assert_eq!(t[18].tiers[1].life, 9);
    assert_eq!(t[18].tiers[0], Mc2SubSpell::default());
}

#[test]
fn parses_negative_little_endian_fields() {
    let mut bytes = vec![0u8; MC2_SPELL_ROWS * 80];
    let base = 2 * 80 + 2;
    bytes[2 * 80] = 0xFF;
    bytes[base..base + 4].copy_from_slice(&(-5i32).to_le_bytes());
    bytes[base + 20..base + 22].copy_from_slice(&(-300i16).to_le_bytes());
    let t = parse(&bytes).unwrap();
    assert_eq!(t[2].byte_0, -1);
    assert_eq!(t[2].tiers[0].sub_spell, -5);
    assert_eq!(t[2].tiers[0].hint_text, -300);
}

#[test]
fn rejects_wrong_length() {
    assert!(parse(&[0u8; 80]).is_err());
}

#[test]
fn rejects_one_byte_too_many_and_accepts_the_exact_size() {
    assert!(parse(&vec![0u8; MC2_SPELL_ROWS * 80 + 1]).is_err());
    assert!(parse(&[]).is_err());
    assert!(parse(&vec![0u8; MC2_SPELL_ROWS * 80]).is_ok());
}

#[test]
fn level_init_patch_rows_4_19() {
    let mut rows = vec![Mc2SpellRow::default(); MC2_SPELL_ROWS];
    rows[4].tiers[1].life = 7;
    level_init_patch(&mut rows, false);
    assert_eq!((rows[4].tiers[0].life, rows[4].tiers[0].hint_text), (19, 199));
    assert_eq!((rows[19].tiers[0].life, rows[19].tiers[0].hint_text), (19, 245));
    level_init_patch(&mut rows, true);
    assert_eq!((rows[4].tiers[0].life, rows[4].tiers[0].hint_text), (2, 198));
    assert_eq!((rows[19].tiers[0].life, rows[19].tiers[0].hint_text), (2, 244));
    assert_eq!(rows[4].tiers[1].life, 7);
    assert_eq!(rows[5], Mc2SpellRow::default());
}

#[test]
fn level_init_patch_twice_is_patch_once() {
    let mut once = vec![Mc2SpellRow::default(); MC2_SPELL_ROWS];
    once[4].tiers[0].life = 50;
    let mut twice = once.clone();
    level_init_patch(&mut once, true);
    level_init_patch(&mut twice, true);
    level_init_patch(&mut twice, true);
    assert_eq!(once, twice);
}

#[test]
fn model_to_row_map() {
    for (m, r) in [(9, 18), (11, 16), (15, 17), (17, 9), (22, 21), (67, 20), (71, 15), (0, 0), (45, 0)] {
        assert_eq!(spell_index(m), r);
    }
}

#[test]
fn length_error_names_both_sizes_in_decimal() {
    assert_eq!(parse(&[0u8; 80]).unwrap_err(), "spells.bin: expected 2080 bytes, got 80");
    assert_eq!(parse(&[]).unwrap_err(), "spells.bin: expected 2080 bytes, got 0");
    assert_eq!(
        parse(&vec![0u8; 12345]).unwrap_err(),
        "spells.bin: expected 2080 bytes, got 12345"
    );
}
