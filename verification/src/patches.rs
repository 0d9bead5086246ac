//! Retail-bug patch switches: each field is one deliberate fix of a
//! bug in the shipped game, with both arms implemented; `true` runs the
//! patched arm, `false` runs the shipped behavior.

use vstd::prelude::*;

verus! {

/// Per-patch switches; `true` = the patched (bug-fixed) arm.
#[derive(Debug, Clone, Copy, PartialEq, Eq, Default)]
pub struct WorldPatches {
    /// Create Castle pricing re-derives from the own castle every query.
    pub castle_recast_cost: bool,
    /// Jars re-snap to their tile's ground every tick.
    pub jar_ground_snap: bool,
    /// A settled mana ball tracks the ground both directions.
    pub ball_ground_track: bool,
    /// Mana balls run their roll physics map-wide.
    pub map_wide_ball_rolling: bool,
    /// A possessed dwelling keeps its footprint extents.
    pub possessed_footprint: bool,
    /// Total castle destruction scatters the residual mana bank.
    pub castle_death_mana: bool,
    /// Total castle destruction demolishes the balloon fleet.
    pub castle_death_balloons: bool,
    /// The MC2 downgrade's capacity haircut is computed without overflow.
    pub mc2_downgrade_overflow: bool,
    /// The MC2 magic mine's proximity trigger is armed.
    pub mc2_magic_mine: bool,
}

/// Every switch set to `v`, except the map-wide ball rolling one, set
/// to `rolling`.
pub open spec fn patches_all(v: bool, rolling: bool) -> WorldPatches {
    WorldPatches {
        castle_recast_cost: v,
        jar_ground_snap: v,
        ball_ground_track: v,
        map_wide_ball_rolling: rolling,
        possessed_footprint: v,
        castle_death_mana: v,
        castle_death_balloons: v,
        mc2_downgrade_overflow: v,
        mc2_magic_mine: v,
    }
}

impl WorldPatches {
    /// Every patch off — retail's shipped behavior, bug for bug.
    pub fn retail() -> (r: WorldPatches)
        ensures
            r == patches_all(false, false),
    {
        WorldPatches {
            castle_recast_cost: false,
            jar_ground_snap: false,
            ball_ground_track: false,
            map_wide_ball_rolling: false,
            possessed_footprint: false,
            castle_death_mana: false,
            castle_death_balloons: false,
            mc2_downgrade_overflow: false,
            mc2_magic_mine: false,
        }
    }

    /// The pre-option behavior set: every patch on except the map-wide
    /// ball rolling, which did not exist then.
    pub fn legacy() -> (r: WorldPatches)
        ensures
            r == patches_all(true, false),
    {
        WorldPatches {
            castle_recast_cost: true,
            jar_ground_snap: true,
            ball_ground_track: true,
            map_wide_ball_rolling: false,
            possessed_footprint: true,
            castle_death_mana: true,
            castle_death_balloons: true,
            mc2_downgrade_overflow: true,
            mc2_magic_mine: true,
        }
    }
}

} // verus!
