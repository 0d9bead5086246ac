//! The MC2 spell table (26 rows x 80 bytes on disk), its level-init
//! patch, the effect-model -> row map, and the English spell-name
//! strings indexed by the table's hint-text ids.

use vstd::prelude::*;
use vstd::string::StringExecFns;

verus! {

/// One subspell tier (26 bytes on disk).
#[derive(Debug, Clone, Copy, Default, PartialEq, Eq, Hash)]
pub struct Mc2SubSpell {
    /// The subspell index (the area-damage amount for effects).
    pub sub_spell: i32,
    pub mana_cost: i32,
    /// The caster mana-pool gate for this tier.
    pub max_mana_limit: i32,
    /// The spell-XP ladder thresholds.
    pub xpos1: i32,
    pub xpos2: i32,
    /// Hint string id.
    pub hint_text: i16,
    pub word_0x18: i16,
    pub life: i8,
    pub font_type: u8,
}

/// One spell row (80 bytes on disk).
#[derive(Debug, Clone, Copy, Default, PartialEq, Eq, Hash)]
pub struct Mc2SpellRow {
    pub byte_0: i8,
    pub enabled: u8,
    /// The three tiers, indexed by spell level.
    pub tiers: [Mc2SubSpell; 3],
}

/// Rows in the table.
pub const MC2_SPELL_ROWS: usize = 26;

/// Bytes per row on disk.
pub const MC2_SPELL_ROW_BYTES: usize = 80;

/// A byte read as a two's-complement `i8`.
pub open spec fn signed8(b: u8) -> int {
    if b >= 128 { b - 256 } else { b as int }
}

/// Little-endian two's-complement 16-bit value at offset `o`.
pub open spec fn le_i16(s: Seq<u8>, o: int) -> int {
    let u = s[o] + 256 * s[o + 1];
    if s[o + 1] >= 128 { u - 65536 } else { u }
}

/// Little-endian two's-complement 32-bit value at offset `o`.
pub open spec fn le_i32(s: Seq<u8>, o: int) -> int {
    let u = s[o] + 256 * s[o + 1] + 65536 * s[o + 2] + 16777216 * s[o + 3];
    if s[o + 3] >= 128 { u - 4294967296 } else { u }
}

/// The tier decoded from the 26 bytes at offset `o` of a row.
pub open spec fn tier_spec(row: Seq<u8>, o: int) -> Mc2SubSpell {
    Mc2SubSpell {
        sub_spell: le_i32(row, o) as i32,
        mana_cost: le_i32(row, o + 4) as i32,
        max_mana_limit: le_i32(row, o + 8) as i32,
        xpos1: le_i32(row, o + 12) as i32,
        xpos2: le_i32(row, o + 16) as i32,
        hint_text: le_i16(row, o + 20) as i16,
        word_0x18: le_i16(row, o + 22) as i16,
        life: signed8(row[o + 24]) as i8,
        font_type: row[o + 25],
    }
}

/// The row decoded from its 80 on-disk bytes.
pub open spec fn row_spec(row: Seq<u8>) -> Mc2SpellRow {
    Mc2SpellRow {
        byte_0: signed8(row[0]) as i8,
        enabled: row[1],
        tiers: [tier_spec(row, 2), tier_spec(row, 28), tier_spec(row, 54)],
    }
}

/// The bytes of row `k` of the file.
pub open spec fn row_bytes(bytes: Seq<u8>, k: int) -> Seq<u8> {
    bytes.subrange(80 * k, 80 * k + 80)
}

/// The file's little-endian two's-complement 32-bit field at byte `p`.
pub open spec fn file_i32(b: Seq<u8>, p: int) -> int {
    let u = b[p] as int + b[p + 1] as int * 0x100 + b[p + 2] as int * 0x1_0000 + b[p + 3] as int * 0x100_0000;
    if b[p + 3] >= 0x80 { u - 0x1_0000_0000 } else { u }
}

/// The file's little-endian two's-complement 16-bit field at byte `p`.
pub open spec fn file_i16(b: Seq<u8>, p: int) -> int {
    let u = b[p] as int + b[p + 1] as int * 0x100;
    if b[p + 1] >= 0x80 { u - 0x1_0000 } else { u }
}

/// The file's signed byte at `p`.
pub open spec fn file_i8(b: Seq<u8>, p: int) -> int {
    if b[p] >= 0x80 { b[p] as int - 0x100 } else { b[p] as int }
}

/// The on-disk layout of `spells.bin`: row `k` is the 80 bytes from
/// `80 k`: a signed byte, the enabled byte, then three 26-byte tiers
/// from `80 k + 2 + 26 t`, each the sub-spell, mana cost, max mana
/// limit, x positions 1 and 2 (little-endian 32-bit at +0, +4, +8, +12,
/// +16), the hint and word 0x18 (16-bit at +20, +22), the life (signed
/// byte at +24) and the font type (+25). A parsed row holds exactly these.
pub proof fn parse_field_layout(bytes: Seq<u8>, k: int, t: int)
    requires
        bytes.len() == 2080,
        0 <= k < 26,
        0 <= t < 3,
    ensures
        ({
            let r = row_spec(row_bytes(bytes, k));
            let x = r.tiers[t];
            let p = 80 * k + 2 + 26 * t;
            &&& r.byte_0 as int == file_i8(bytes, 80 * k)
            &&& r.enabled == bytes[80 * k + 1]
            &&& x.sub_spell as int == file_i32(bytes, p)
            &&& x.mana_cost as int == file_i32(bytes, p + 4)
            &&& x.max_mana_limit as int == file_i32(bytes, p + 8)
            &&& x.xpos1 as int == file_i32(bytes, p + 12)
            &&& x.xpos2 as int == file_i32(bytes, p + 16)
            &&& x.hint_text as int == file_i16(bytes, p + 20)
            &&& x.word_0x18 as int == file_i16(bytes, p + 22)
            &&& x.life as int == file_i8(bytes, p + 24)
            &&& x.font_type == bytes[p + 25]
        }),
{
    let row = row_bytes(bytes, k);
    let o = 2 + 26 * t;
    assert forall|j: int| 0 <= j < 80 implies #[trigger] row[j] == bytes[80 * k + j] by {}
    assert(row[o] == bytes[80 * k + o] && row[o + 1] == bytes[80 * k + o + 1]);
    let r = row_spec(row);
    let x = if t == 0 { tier_spec(row, 2) } else if t == 1 { tier_spec(row, 28) } else { tier_spec(row, 54) };
    assert(r.tiers[t] == x);
    assert(x == tier_spec(row, o));
    let q = 80 * k + o;
    assert(row[o + 4] == bytes[q + 4] && row[o + 5] == bytes[q + 5] && row[o + 6] == bytes[q + 6] && row[o + 7] == bytes[q + 7]);
    assert(row[o + 8] == bytes[q + 8] && row[o + 9] == bytes[q + 9] && row[o + 10] == bytes[q + 10] && row[o + 11] == bytes[q + 11]);
    assert(row[o + 2] == bytes[q + 2] && row[o + 3] == bytes[q + 3]);
    assert(row[o + 12] == bytes[q + 12] && row[o + 13] == bytes[q + 13] && row[o + 14] == bytes[q + 14] && row[o + 15] == bytes[q + 15]);
    assert(row[o + 16] == bytes[q + 16] && row[o + 17] == bytes[q + 17] && row[o + 18] == bytes[q + 18] && row[o + 19] == bytes[q + 19]);
    assert(row[o + 20] == bytes[q + 20] && row[o + 21] == bytes[q + 21] && row[o + 22] == bytes[q + 22] && row[o + 23] == bytes[q + 23]);
    assert(row[o + 24] == bytes[q + 24] && row[o + 25] == bytes[q + 25]);
    assert(row[0] == bytes[80 * k] && row[1] == bytes[80 * k + 1]);
}

/// The decimal digits of a natural number.
pub open spec fn decimal(n: nat) -> Seq<char>
    decreases n,
{
    let d = ((n % 10) + 48) as char;
    if n < 10 {
        seq![d]
    } else {
        decimal(n / 10).push(d)
    }
}

/// The message of a malformed bake.
pub open spec fn length_error_text(expected: nat, got: nat) -> Seq<char> {
    "spells.bin: expected "@ + decimal(expected) + " bytes, got "@ + decimal(got)
}

/// The one-character string of decimal digit `d`.
fn digit_str(d: usize) -> (r: &'static str)
    requires
        d < 10,
    ensures
        r@ == seq![((d + 48) as char)],
{
    proof {
        reveal_strlit("0");
        reveal_strlit("1");
        reveal_strlit("2");
        reveal_strlit("3");
        reveal_strlit("4");
        reveal_strlit("5");
        reveal_strlit("6");
        reveal_strlit("7");
        reveal_strlit("8");
        reveal_strlit("9");
    }
    match d {
        0 => "0",
        1 => "1",
        2 => "2",
        3 => "3",
        4 => "4",
        5 => "5",
        6 => "6",
        7 => "7",
        8 => "8",
        _ => "9",
    }
}

/// The decimal digits of `n`, most significant first.
fn decimal_string(n: usize) -> (r: String)
    ensures
        r@ == decimal(n as nat),
    decreases n,
{
    if n < 10 {
        String::from_str(digit_str(n))
    } else {
        let mut s = decimal_string(n / 10);
        s.append(digit_str(n % 10));
        s
    }
}

/// The malformed-bake message: the expected and the actual size in
/// decimal.
fn length_error(expected: usize, got: usize) -> (r: String)
    ensures
        r@ == length_error_text(expected as nat, got as nat),
{
    let mut s = String::from_str("spells.bin: expected ");
    let e = decimal_string(expected);
    s.append(e.as_str());
    s.append(" bytes, got ");
    let g = decimal_string(got);
    s.append(g.as_str());
    s
}

fn read_i8(row: &[u8], o: usize) -> (r: i8)
    requires
        o < row@.len(),
    ensures
        r as int == signed8(row@[o as int]),
{
    let b = row[o];
    if b >= 128 {
        (b as i16 - 256) as i8
    } else {
        b as i8
    }
}

fn read_i16(row: &[u8], o: usize) -> (r: i16)
    requires
        o + 2 <= row@.len(),
    ensures
        r as int == le_i16(row@, o as int),
{
    let u = row[o] as i32 + 256 * row[o + 1] as i32;
    if row[o + 1] >= 128 {
        (u - 65536) as i16
    } else {
        u as i16
    }
}

fn read_i32(row: &[u8], o: usize) -> (r: i32)
    requires
        o + 4 <= row@.len(),
    ensures
        r as int == le_i32(row@, o as int),
{
    let u = row[o] as i64 + 256 * row[o + 1] as i64 + 65536 * row[o + 2] as i64 + 16777216
        * row[o + 3] as i64;
    if row[o + 3] >= 128 {
        (u - 4294967296) as i32
    } else {
        u as i32
    }
}

fn read_tier(row: &[u8], o: usize) -> (r: Mc2SubSpell)
    requires
        o + 26 <= row@.len() <= 2080,
    ensures
        r == tier_spec(row@, o as int),
{
    Mc2SubSpell {
        sub_spell: read_i32(row, o),
        mana_cost: read_i32(row, o + 4),
        max_mana_limit: read_i32(row, o + 8),
        xpos1: read_i32(row, o + 12),
        xpos2: read_i32(row, o + 16),
        hint_text: read_i16(row, o + 20),
        word_0x18: read_i16(row, o + 22),
        life: read_i8(row, o + 24),
        font_type: row[o + 25],
    }
}

#[verifier::spinoff_prover]
#[verifier::rlimit(30)]
fn read_row(bytes: &[u8], base: usize) -> (r: Mc2SpellRow)
    requires
        base + 80 <= bytes@.len() <= 2080,
    ensures
        r == row_spec(bytes@.subrange(base as int, base + 80)),
{
    let ghost row = bytes@.subrange(base as int, base + 80);
    let r = Mc2SpellRow {
        byte_0: read_i8(bytes, base),
        enabled: bytes[base + 1],
        tiers: [read_tier(bytes, base + 2), read_tier(bytes, base + 28), read_tier(bytes, base + 54)],
    };
    assert(r.tiers[0] == tier_spec(row, 2));
    assert(r.tiers[1] == tier_spec(row, 28));
    assert(r.tiers[2] == tier_spec(row, 54));
    assert(r.tiers =~= [tier_spec(row, 2), tier_spec(row, 28), tier_spec(row, 54)]);
    r
}

/// Parse `spells.bin`. Anything but exactly 26 x 80 bytes is a
/// malformed bake.
pub fn parse(bytes: &[u8]) -> (r: Result<Vec<Mc2SpellRow>, String>)
    ensures
        bytes@.len() != 2080 ==> (r matches Err(e) && e@ == length_error_text(
            2080,
            bytes@.len(),
        )),
        bytes@.len() == 2080 ==> (r matches Ok(rows) && rows@.len() == 26 && forall|k: int|
            0 <= k < 26 ==> #[trigger] rows@[k] == row_spec(row_bytes(bytes@, k))),
{
    if bytes.len() != MC2_SPELL_ROWS * MC2_SPELL_ROW_BYTES {
        return Err(length_error(MC2_SPELL_ROWS * MC2_SPELL_ROW_BYTES, bytes.len()));
    }
    let mut rows: Vec<Mc2SpellRow> = Vec::new();
    let mut k: usize = 0;
    while k < MC2_SPELL_ROWS
        invariant
            bytes@.len() == 2080,
            k <= 26,
            rows@.len() == k,
            forall|j: int| 0 <= j < k ==> #[trigger] rows@[j] == row_spec(row_bytes(bytes@, j)),
        decreases 26 - k,
    {
        let row = read_row(bytes, k * MC2_SPELL_ROW_BYTES);
        rows.push(row);
        k += 1;
    }
    Ok(rows)
}

/// The value of the level-init patch: `(life, row-4 hint, row-19 hint)`.
pub open spec fn level_init_values(day: bool) -> (i8, i16, i16) {
    if day { (2, 198, 244) } else { (19, 199, 245) }
}

/// A row with its tier-0 life and hint text replaced.
pub open spec fn patch_row(r: Mc2SpellRow, life: i8, hint: i16) -> Mc2SpellRow {
    Mc2SpellRow {
        tiers: [Mc2SubSpell { life, hint_text: hint, ..r.tiers[0] }, r.tiers[1], r.tiers[2]],
        ..r
    }
}

/// The table after the level-init patch: rows 4 and 19 (when present)
/// get the Day/non-Day tier-0 life and hint text, nothing else moves.
pub open spec fn level_init_spec(rows: Seq<Mc2SpellRow>, day: bool) -> Seq<Mc2SpellRow> {
    let (life, h4, h19) = level_init_values(day);
    Seq::new(
        rows.len(),
        |k: int|
            if k == 4 {
                patch_row(rows[k], life, h4)
            } else if k == 19 {
                patch_row(rows[k], life, h19)
            } else {
                rows[k]
            },
    )
}

fn patch_one(rows: &mut [Mc2SpellRow], k: usize, life: i8, hint: i16)
    requires
        k < old(rows)@.len(),
    ensures
        final(rows)@ == old(rows)@.update(k as int, patch_row(old(rows)@[k as int], life, hint)),
{
    let mut r = rows[k];
    let mut t = r.tiers[0];
    t.life = life;
    t.hint_text = hint;
    r.tiers[0] = t;
    let ghost o = old(rows)@[k as int];
    assert(r.tiers =~= [Mc2SubSpell { life, hint_text: hint, ..o.tiers[0] }, o.tiers[1], o.tiers[2]]);
    rows[k] = r;
}

/// The level-init patch: every level init re-writes rows 4 and 19,
/// tier 0 only (life + hint text), keyed to the map's Day flag.
pub fn level_init_patch(rows: &mut [Mc2SpellRow], day: bool)
    ensures
        final(rows)@ == level_init_spec(old(rows)@, day),
{
    let (life, h4, h19): (i8, i16, i16) = if day { (2, 198, 244) } else { (19, 199, 245) };
    if 4 < rows.len() {
        patch_one(rows, 4, life, h4);
    }
    if 19 < rows.len() {
        patch_one(rows, 19, life, h19);
    }
    assert(rows@ =~= level_init_spec(old(rows)@, day));
}

/// Applying the level-init patch twice with the same Day flag leaves
/// the table as one application does.
pub proof fn level_init_patch_idempotent(rows: Seq<Mc2SpellRow>, day: bool)
    ensures
        level_init_spec(level_init_spec(rows, day), day) == level_init_spec(rows, day),
{
    let once = level_init_spec(rows, day);
    let twice = level_init_spec(once, day);
    assert forall|k: int| 0 <= k < rows.len() implies #[trigger] twice[k] == once[k] by {
        if k == 4 || k == 19 {
            assert(twice[k].tiers =~= once[k].tiers);
            assert(twice[k] == once[k]);
        }
    }
    assert(twice =~= once);
}

/// The class-10 effect model -> spell row map; everything unlisted
/// resolves to row 0.
pub open spec fn spell_index_spec(model: u8) -> usize {
    if model == 9 { 18 }
    else if model == 11 { 16 }
    else if model == 15 { 17 }
    else if model == 17 { 9 }
    else if model == 22 { 21 }
    else if model == 67 { 20 }
    else if model == 71 { 15 }
    else { 0 }
}

/// Class-10 effect model -> spell row.
pub fn spell_index(model: u8) -> (r: usize)
    ensures
        r == spell_index_spec(model),
        r < MC2_SPELL_ROWS,
{
    match model {
        9 => 18,
        11 => 16,
        15 => 17,
        17 => 9,
        22 => 21,
        67 => 20,
        71 => 15,
        _ => 0,
    }
}

/// The first lang-string index of the spell strings.
pub const LANG_BASE: i16 = 159;

/// The English spell strings by lang index 159..=265; anything else is
/// the empty string.
pub open spec fn lang_spec(idx: i16) -> Seq<char> {
    match idx {
        159i16 => "Your ability to cast %s has improved."@,
        160i16 => "FIREBALL"@,
        161i16 => "POSSESS"@,
        162i16 => "CASTLE"@,
        163i16 => "SPEED UP"@,
        164i16 => "MORPH"@,
        165i16 => "HEAL"@,
        166i16 => "SHIELD"@,
        167i16 => "LIGHTNING"@,
        168i16 => "REBOUND"@,
        169i16 => "METEOR"@,
        170i16 => "TELEPORT"@,
        171i16 => "INVISIBLE"@,
        172i16 => "BEYOND SIGHT"@,
        173i16 => "STEAL MANA"@,
        174i16 => "DUEL"@,
        175i16 => "TREMOR"@,
        176i16 => "CRATER"@,
        177i16 => "EARTHQUAKE"@,
        178i16 => "VOLCANO"@,
        179i16 => "SUMMON ARMY"@,
        180i16 => "GRAVITY WELL"@,
        181i16 => "WHIRLWIND"@,
        182i16 => "FOOL'S MANA"@,
        183i16 => "MAGIC MINE"@,
        184i16 => "ALLIANCE"@,
        185i16 => "CAVE IN"@,
        186i16 => "FireBall"@,
        187i16 => "Rapid Fire"@,
        188i16 => "Fire Storm"@,
        189i16 => "Possession"@,
        190i16 => "Mana Magnet"@,
        191i16 => "Mana Lock"@,
        192i16 => "Castle"@,
        193i16 => "Fire Tower"@,
        194i16 => "Lightning Tower"@,
        195i16 => "Speed Up"@,
        196i16 => "Super Speed"@,
        197i16 => "Super Speed II"@,
        198i16 => "Bee Morph"@,
        199i16 => "Firefly Morph"@,
        200i16 => "Cymmerian Morph"@,
        201i16 => "Wyvern Morph"@,
        202i16 => "Heal"@,
        203i16 => "Aid"@,
        204i16 => "Constitution"@,
        205i16 => "Shield"@,
        206i16 => "Shield II"@,
        207i16 => "Invulnerable"@,
        208i16 => "Lightning"@,
        209i16 => "Thunderbolt"@,
        210i16 => "Thunderstorm"@,
        211i16 => "Rebound"@,
        212i16 => "Rebound II"@,
        213i16 => "Amplify"@,
        214i16 => "Meteor"@,
        215i16 => "Meteor II"@,
        216i16 => "Meteor III"@,
        217i16 => "Teleport"@,
        218i16 => "Teleport II"@,
        219i16 => "Castle Port"@,
        220i16 => "Invisible"@,
        221i16 => "Possess Invisible"@,
        222i16 => "Attack Invisible"@,
        223i16 => "Beyond Sight"@,
        224i16 => "See Invisible"@,
        225i16 => "See All"@,
        226i16 => "Steal Mana"@,
        227i16 => "Double Steal"@,
        228i16 => "Burgle"@,
        229i16 => "Duel"@,
        230i16 => "Mana Drain"@,
        231i16 => "Health Drain"@,
        232i16 => "Tremor"@,
        233i16 => "Tremor II"@,
        234i16 => "Tremor III"@,
        235i16 => "Crater"@,
        236i16 => "Crater II"@,
        237i16 => "Crater III"@,
        238i16 => "Earthquake"@,
        239i16 => "Earthquake II"@,
        240i16 => "Earthquake III"@,
        241i16 => "Volcano"@,
        242i16 => "Volcano II"@,
        243i16 => "Volcano III"@,
        244i16 => "Bee Army"@,
        245i16 => "Firefly Army"@,
        246i16 => "Cymmerian Army"@,
        247i16 => "Wyvern Army"@,
        248i16 => "Gravity Well"@,
        249i16 => "Gravity Well II"@,
        250i16 => "Gravity Well III"@,
        251i16 => "Whirlwind"@,
        252i16 => "Whirlwind II"@,
        253i16 => "Whirlwind III"@,
        254i16 => "Fool's Mana"@,
        255i16 => "Rapid Fire"@,
        256i16 => "Lightning Fire"@,
        257i16 => "Magic Mine"@,
        258i16 => "Magic Mine II"@,
        259i16 => "Magic Mine III"@,
        260i16 => "Alliance"@,
        261i16 => "Alliance II"@,
        262i16 => "Alliance III"@,
        263i16 => "Cave In"@,
        264i16 => "Cave In II"@,
        265i16 => "Cave In III"@,
        _ => ""@,
    }
}

/// Resolve a lang-string index (159..=265) to its English string.
/// Out-of-range -> `""`.
pub fn lang(idx: i16) -> (r: &'static str)
    ensures
        r@ == lang_spec(idx),
{
    match idx {
        159 => "Your ability to cast %s has improved.",
        160 => "FIREBALL",
        161 => "POSSESS",
        162 => "CASTLE",
        163 => "SPEED UP",
        164 => "MORPH",
        165 => "HEAL",
        166 => "SHIELD",
        167 => "LIGHTNING",
        168 => "REBOUND",
        169 => "METEOR",
        170 => "TELEPORT",
        171 => "INVISIBLE",
        172 => "BEYOND SIGHT",
        173 => "STEAL MANA",
        174 => "DUEL",
        175 => "TREMOR",
        176 => "CRATER",
        177 => "EARTHQUAKE",
        178 => "VOLCANO",
        179 => "SUMMON ARMY",
        180 => "GRAVITY WELL",
        181 => "WHIRLWIND",
        182 => "FOOL'S MANA",
        183 => "MAGIC MINE",
        184 => "ALLIANCE",
        185 => "CAVE IN",
        186 => "FireBall",
        187 => "Rapid Fire",
        188 => "Fire Storm",
        189 => "Possession",
        190 => "Mana Magnet",
        191 => "Mana Lock",
        192 => "Castle",
        193 => "Fire Tower",
        194 => "Lightning Tower",
        195 => "Speed Up",
        196 => "Super Speed",
        197 => "Super Speed II",
        198 => "Bee Morph",
        199 => "Firefly Morph",
        200 => "Cymmerian Morph",
        201 => "Wyvern Morph",
        202 => "Heal",
        203 => "Aid",
        204 => "Constitution",
        205 => "Shield",
        206 => "Shield II",
        207 => "Invulnerable",
        208 => "Lightning",
        209 => "Thunderbolt",
        210 => "Thunderstorm",
        211 => "Rebound",
        212 => "Rebound II",
        213 => "Amplify",
        214 => "Meteor",
        215 => "Meteor II",
        216 => "Meteor III",
        217 => "Teleport",
        218 => "Teleport II",
        219 => "Castle Port",
        220 => "Invisible",
        221 => "Possess Invisible",
        222 => "Attack Invisible",
        223 => "Beyond Sight",
        224 => "See Invisible",
        225 => "See All",
        226 => "Steal Mana",
        227 => "Double Steal",
        228 => "Burgle",
        229 => "Duel",
        230 => "Mana Drain",
        231 => "Health Drain",
        232 => "Tremor",
        233 => "Tremor II",
        234 => "Tremor III",
        235 => "Crater",
        236 => "Crater II",
        237 => "Crater III",
        238 => "Earthquake",
        239 => "Earthquake II",
        240 => "Earthquake III",
        241 => "Volcano",
        242 => "Volcano II",
        243 => "Volcano III",
        244 => "Bee Army",
        245 => "Firefly Army",
        246 => "Cymmerian Army",
        247 => "Wyvern Army",
        248 => "Gravity Well",
        249 => "Gravity Well II",
        250 => "Gravity Well III",
        251 => "Whirlwind",
        252 => "Whirlwind II",
        253 => "Whirlwind III",
        254 => "Fool's Mana",
        255 => "Rapid Fire",
        256 => "Lightning Fire",
        257 => "Magic Mine",
        258 => "Magic Mine II",
        259 => "Magic Mine III",
        260 => "Alliance",
        261 => "Alliance II",
        262 => "Alliance III",
        263 => "Cave In",
        264 => "Cave In II",
        265 => "Cave In III",
        _ => "",
    }
}

} // verus!
