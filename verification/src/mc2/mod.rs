//! The MC2 simulation column: the spell table and the MC2-native
//! terrain, castle and creature machinery.

pub mod castle;
pub mod cave;
pub mod doomsday;
pub mod effects;
pub mod flood;
pub mod mobs;
pub mod morph;
pub mod proj;
pub mod riser;
pub mod scenery;
pub mod spells;
pub mod stagevars;
pub mod tail;
