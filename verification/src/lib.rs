//! A verified core of the Magic Carpet simulation: the per-game verb
//! seam, the spell tables, the MC2 spell-table parser and the MC2
//! terrain/creature machinery that runs on the shared world model.

pub mod mc2;
pub mod mobs;
pub mod patches;
pub mod spells;
pub mod verbs;
pub mod world;
