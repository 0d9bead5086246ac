//! MC1 player spell definitions: the 24-spell stat table, the book
//! display permutation, and the small derived lookups.

use vstd::prelude::*;

verus! {

/// Internal spell type (0..24). The spellbook displays spells permuted
/// by [`DISPLAY_ORDER`].
#[derive(Debug, Clone, Copy, PartialEq, Eq, PartialOrd, Ord)]
pub struct SpellId(pub u8);

pub const SPELL_COUNT: usize = 24;

/// The manual name of each spell id.
pub open spec fn spell_name_spec(id: u8) -> Seq<char> {
    if id == 0 { "Fireball"@ }
    else if id == 1 { "Heal"@ }
    else if id == 2 { "Accelerate"@ }
    else if id == 3 { "Possess"@ }
    else if id == 4 { "Shield"@ }
    else if id == 5 { "Beyond Sight"@ }
    else if id == 6 { "Earthquake"@ }
    else if id == 7 { "Meteor"@ }
    else if id == 8 { "Volcano"@ }
    else if id == 9 { "Crater"@ }
    else if id == 10 { "Teleport"@ }
    else if id == 11 { "Duel to the Death"@ }
    else if id == 12 { "Invisible"@ }
    else if id == 13 { "Steal Mana"@ }
    else if id == 14 { "Rebound"@ }
    else if id == 15 { "Lightning Bolt"@ }
    else if id == 16 { "Create Castle"@ }
    else if id == 17 { "Undead Army"@ }
    else if id == 18 { "Lightning Storm"@ }
    else if id == 19 { "Mana Magnet"@ }
    else if id == 20 { "Wall of Fire"@ }
    else if id == 21 { "Accelerate Backwards"@ }
    else if id == 22 { "Global Death"@ }
    else { "Rapid Fireball"@ }
}

impl SpellId {
    /// The spell's manual name.
    pub fn name(self) -> (r: &'static str)
        requires
            (self.0 as usize) < SPELL_COUNT,
        ensures
            r@ == spell_name_spec(self.0),
    {
        match self.0 {
            0 => "Fireball",
            1 => "Heal",
            2 => "Accelerate",
            3 => "Possess",
            4 => "Shield",
            5 => "Beyond Sight",
            6 => "Earthquake",
            7 => "Meteor",
            8 => "Volcano",
            9 => "Crater",
            10 => "Teleport",
            11 => "Duel to the Death",
            12 => "Invisible",
            13 => "Steal Mana",
            14 => "Rebound",
            15 => "Lightning Bolt",
            16 => "Create Castle",
            17 => "Undead Army",
            18 => "Lightning Storm",
            19 => "Mana Magnet",
            20 => "Wall of Fire",
            21 => "Accelerate Backwards",
            22 => "Global Death",
            _ => "Rapid Fireball",
        }
    }
}

/// One spell's constructor arguments.
#[derive(Debug, Clone, Copy, PartialEq, Eq)]
pub struct SpellDef {
    /// The spell's total mana cost.
    pub possess_mana: u32,
    /// Burst count.
    pub count: u16,
    /// Fire-mode flag.
    pub fire_flag: bool,
    /// Continuous/charging spell flag.
    pub charge_flag: bool,
    /// Required castle stored mana (0 = castle-free spell).
    pub castle_req: u32,
    /// Damage/potency.
    pub damage: u32,
}

/// Builds a [`SpellDef`] from the constructor's argument order.
pub fn def(
    possess_mana: u32,
    count: u16,
    fire_flag: bool,
    charge_flag: bool,
    castle_req: u32,
    damage: u32,
) -> (r: SpellDef)
    ensures
        r == (SpellDef { possess_mana, count, fire_flag, charge_flag, castle_req, damage }),
{
    SpellDef { possess_mana, count, fire_flag, charge_flag, castle_req, damage }
}

/// The spell table row of each spell id, in constructor order
/// (mana, count, fire, charge, castle requirement, damage).
pub open spec fn spell_row_spec(id: u8) -> (u32, u16, bool, bool, u32, u32) {
    if id == 0 { (200, 5, true, false, 0, 125) }
    else if id == 1 { (1000, 21, true, false, 0, 100) }
    else if id == 2 { (1000, 251, false, false, 0, 100) }
    else if id == 3 { (50, 3, true, false, 0, 100) }
    else if id == 4 { (2000, 251, true, false, 0, 100) }
    else if id == 5 { (3000, 101, true, false, 0, 100) }
    else if id == 6 { (6000, 51, true, false, 120000, 6000) }
    else if id == 7 { (10000, 11, true, false, 100000, 10000) }
    else if id == 8 { (30000, 65, true, false, 180000, 1000) }
    else if id == 9 { (12000, 31, true, false, 100000, 6000) }
    else if id == 10 { (5000, 51, true, false, 10000, 100) }
    else if id == 11 { (2500, 17, true, false, 16000, 100) }
    else if id == 12 { (5000, 251, true, false, 50000, 100) }
    else if id == 13 { (500, 11, true, false, 20000, 100) }
    else if id == 14 { (1000, 101, true, false, 8000, 100) }
    else if id == 15 { (1000, 2, false, false, 25000, 500) }
    else if id == 16 { (1000, 101, true, false, 0, 10000) }
    else if id == 17 { (13000, 13, true, false, 150000, 100) }
    else if id == 18 { (20000, 33, true, false, 90000, 2000) }
    else if id == 19 { (4000, 17, true, false, 10000, 100) }
    else if id == 20 { (5000, 51, true, false, 12000, 24464) }
    else if id == 21 { (1000, 251, false, false, 0, 100) }
    else if id == 22 { (75000, 101, true, false, 199488, 7000) }
    else { (600, 3, false, false, 50000, 50) }
}

/// The spell table entry of a spell id, as the table row says.
pub open spec fn spell_def_spec(id: u8) -> SpellDef {
    let r = spell_row_spec(id);
    SpellDef {
        possess_mana: r.0,
        count: r.1,
        fire_flag: r.2,
        charge_flag: r.3,
        castle_req: r.4,
        damage: r.5,
    }
}

/// The stat table entry of a spell.
pub fn spell_def(spell: SpellId) -> (r: SpellDef)
    requires
        (spell.0 as usize) < SPELL_COUNT,
    ensures
        r == spell_def_spec(spell.0),
{
    match spell.0 {
        0 => def(200, 5, true, false, 0, 125),
        1 => def(1000, 21, true, false, 0, 100),
        2 => def(1000, 251, false, false, 0, 100),
        3 => def(50, 3, true, false, 0, 100),
        4 => def(2000, 251, true, false, 0, 100),
        5 => def(3000, 101, true, false, 0, 100),
        6 => def(6000, 51, true, false, 120000, 6000),
        7 => def(10000, 11, true, false, 100000, 10000),
        8 => def(30000, 65, true, false, 180000, 1000),
        9 => def(12000, 31, true, false, 100000, 6000),
        10 => def(5000, 51, true, false, 10000, 100),
        11 => def(2500, 17, true, false, 16000, 100),
        12 => def(5000, 251, true, false, 50000, 100),
        13 => def(500, 11, true, false, 20000, 100),
        14 => def(1000, 101, true, false, 8000, 100),
        15 => def(1000, 2, false, false, 25000, 500),
        16 => def(1000, 101, true, false, 0, 10000),
        17 => def(13000, 13, true, false, 150000, 100),
        18 => def(20000, 33, true, false, 90000, 2000),
        19 => def(4000, 17, true, false, 10000, 100),
        20 => def(5000, 51, true, false, 12000, 24464),
        21 => def(1000, 251, false, false, 0, 100),
        22 => def(75000, 101, true, false, 199488, 7000),
        _ => def(600, 3, false, false, 50000, 50),
    }
}

/// Spellbook display order: page position -> internal spell id.
pub const DISPLAY_ORDER: [u8; 24] = [
    0, 3, 2, 16, 1, 14, 4, 12, 6, 9, 7, 8, 15, 18, 17, 19, 13, 5, 11, 10, 20, 21, 22, 23,
];

/// The display order as a sequence.
pub open spec fn display_order_seq() -> Seq<u8> {
    seq![0u8, 3, 2, 16, 1, 14, 4, 12, 6, 9, 7, 8, 15, 18, 17, 19, 13, 5, 11, 10, 20, 21, 22, 23]
}

/// The page position of a spell, the inverse of the display order.
pub open spec fn display_position(id: int) -> int {
    if id == 0 { 0 }
    else if id == 3 { 1 }
    else if id == 2 { 2 }
    else if id == 16 { 3 }
    else if id == 1 { 4 }
    else if id == 14 { 5 }
    else if id == 4 { 6 }
    else if id == 12 { 7 }
    else if id == 6 { 8 }
    else if id == 9 { 9 }
    else if id == 7 { 10 }
    else if id == 8 { 11 }
    else if id == 15 { 12 }
    else if id == 18 { 13 }
    else if id == 17 { 14 }
    else if id == 19 { 15 }
    else if id == 13 { 16 }
    else if id == 5 { 17 }
    else if id == 11 { 18 }
    else if id == 10 { 19 }
    else { id }
}

/// The display order is a permutation of the 24 spell ids: every page
/// shows a valid spell, no spell shows twice, and every spell shows on
/// some page.
pub proof fn display_order_is_permutation()
    ensures
        DISPLAY_ORDER@ == display_order_seq(),
        forall|i: int| 0 <= i < 24 ==> (#[trigger] DISPLAY_ORDER@[i] as int) < 24,
        forall|i: int, j: int|
            0 <= i < 24 && 0 <= j < 24 && i != j ==> #[trigger] DISPLAY_ORDER@[i]
                != #[trigger] DISPLAY_ORDER@[j],
        forall|s: int|
            0 <= s < 24 ==> 0 <= #[trigger] display_position(s) < 24
                && DISPLAY_ORDER@[display_position(s)] as int == s,
{
    assert(DISPLAY_ORDER@ =~= display_order_seq());
    assert forall|s: int| 0 <= s < 24 implies 0 <= #[trigger] display_position(s) < 24
        && DISPLAY_ORDER@[display_position(s)] as int == s by {
        assert(DISPLAY_ORDER@ =~= display_order_seq());
    }
    assert forall|i: int, j: int|
        0 <= i < 24 && 0 <= j < 24 && i != j implies #[trigger] DISPLAY_ORDER@[i]
            != #[trigger] DISPLAY_ORDER@[j] by {
        assert(display_position(DISPLAY_ORDER@[i] as int) == i);
        assert(display_position(DISPLAY_ORDER@[j] as int) == j);
    }
}

/// UI sprite id of a spell's book/HUD icon.
pub fn icon_sprite(spell: SpellId) -> (r: u32)
    ensures
        r == spell.0 as u32 + 6,
{
    spell.0 as u32 + 6
}

/// The mutually exclusive toggle pair: forward vs backward thrust.
pub open spec fn toggle_pair_spec() -> (SpellId, SpellId) {
    (SpellId(2), SpellId(21))
}

/// The mutually exclusive toggle pair: firing one force-clears the
/// other's charge.
pub fn toggle_pair() -> (r: (SpellId, SpellId))
    ensures
        r == toggle_pair_spec(),
{
    (SpellId(2), SpellId(21))
}

} // verus!
