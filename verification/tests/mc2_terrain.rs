use mgc_sim::mc2::castle::mc2_stage_parts;
use mgc_sim::mc2::flood::burn_flags;
use mgc_sim::mc2::morph::{auto_flat, dist2d, isqrt};

#[test]
fn stage_parts_match_the_db038_decode() {
    const DB038: [u8; 52] = [
        0x00, 0x00, 0x01, 0x00, 0x04, 0x01, 0x04, 0x01, 0x04, 0x05, 0x04, 0x05, 0x08, 0x09, 0x08,
        0x09, 0x00, 0x00, 0x04, 0x04, 0x03, 0x03, 0x11, 0x03, 0x03, 0x11, 0x11, 0x11, 0x03, 0x03,
        0x1F, 0x03, 0x03, 0x1F, 0x1F, 0x1F, 0x03, 0x03, 0x18, 0x03, 0x2D, 0x03, 0x03, 0x18, 0x2D,
        0x18, 0x03, 0x2D, 0x18, 0x2D, 0x2D, 0x2D,
    ];
    for lvl in 0..8usize {
        let count = DB038[2 * lvl] as usize;
        let slot = DB038[1 + 2 * lvl] as usize;
        let decoded: Vec<(u8, u8)> = (0..count)
            .map(|p| (DB038[18 + 2 * (slot + p)], DB038[18 + 2 * (slot + p) + 1]))
            .collect();
        assert_eq!(mc2_stage_parts(lvl as u8), decoded, "level {lvl} piece list");
    }
}

#[test]
fn burn_flags_matches_0x7f0000_table() {
    for t in 0..=255u16 {
        let t = t as u8;
        let flags: u32 = match t {
            0 => 1,
            1 => 2,
            2 => 4,
            3 => 8,
            4 => 0x10,
            5 => 0x20,
            8 => 0x100,
            9 => 0x200,
            10 => 0x10_0000,
            11 => 0x20_0000,
            12 => 0x40_0000,
            13 | 14 => 0,
            15..=20 | 28..=34 => 0x400,
            21 | 22 | 24 => 0x2_0000,
            23 => 0x4_0000,
            25 | 27 => 0x8_0000,
            26 => 0x1_0000,
            _ => 0x80_0000,
        };
        assert_eq!(burn_flags(t), flags & 0x7F_0000 != 0, "type {t}");
    }
}

#[test]
fn isqrt_matches_floor_sqrt() {
    for a in [0u32, 1, 2, 3, 4, 15, 16, 17, 100, 3072 * 3072, 18_874_368] {
        let r = isqrt(a);
        assert!(r * r <= a && (r + 1) * (r + 1) > a, "isqrt({a}) = {r}");
    }
}

#[test]
fn isqrt_is_floor_sqrt_across_the_whole_u32_range() {
    for a in [u32::MAX, u32::MAX - 1, 0xFFFE_0001, 0xFFFE_0000, 1 << 31, (1 << 31) - 1, 65535, 65536] {
        let r = isqrt(a) as u64;
        let a = a as u64;
        assert!(r * r <= a && (r + 1) * (r + 1) > a, "isqrt({a}) = {r}");
    }
    assert_eq!(isqrt(u32::MAX), 0xFFFF);
    assert_eq!(isqrt(99), 9);
}

#[test]
fn dist2d_truncates_deltas_to_16_bits() {
    assert_eq!(dist2d(0, 0, 3 << 8, 4 << 8), 5 << 8);
    assert_eq!(dist2d(100, 100, 100 + 65536 + 3, 100 + 4), 5);
}

#[test]
fn auto_flat_set_matches_sub_57450() {
    let expect = |t: u8| -> bool {
        if t < 0x53 {
            if t < 0x25 {
                t == 0
            } else if t > 0x26 {
                if t >= 0x2C {
                    !(t > 0x2F && t != 81)
                } else {
                    false
                }
            } else {
                true
            }
        } else if t <= 0x53 {
            true
        } else if t < 0x6D {
            (0x68..=0x69).contains(&t)
        } else if t <= 0x6D {
            true
        } else if t >= 0x72 {
            !(t > 0x72 && t != 116)
        } else {
            false
        }
    };
    for t in 0..=255u8 {
        assert_eq!(auto_flat(t), expect(t), "type {t}");
    }
}
