//! The per-game verb seam: one enum per swappable engine verb, bundled
//! in a [`VerbSet`] that the simulation takes at construction.

use vstd::prelude::*;

verus! {

/// Creature awake / sight-aggro.
#[derive(Debug, Clone, Copy, PartialEq, Eq, Hash)]
pub enum AwakeVerb {
    Mc1,
    Mc2,
}

/// Creature brain / movement family.
#[derive(Debug, Clone, Copy, PartialEq, Eq, Hash)]
pub enum MovementVerb {
    Mc1,
    Mc2,
}

/// Projectile targeting / autoaim. `Mc1Hw` is ordered last so that
/// `Mc1`/`Mc2` keep their positions.
#[derive(Debug, Clone, Copy, PartialEq, Eq, Hash)]
pub enum TargetingVerb {
    Mc1,
    Mc2,
    Mc1Hw,
}

/// Damage application / player intake.
#[derive(Debug, Clone, Copy, PartialEq, Eq, Hash)]
pub enum DamageVerb {
    Mc1,
    Mc2,
}

/// The win/objective engine.
#[derive(Debug, Clone, Copy, PartialEq, Eq, Hash)]
pub enum ObjectiveVerb {
    Mc1,
    Mc2,
}

/// The corpse pipeline.
#[derive(Debug, Clone, Copy, PartialEq, Eq, Hash)]
pub enum CorpseVerb {
    Mc1,
    Mc2,
}

/// The player movement-commit gate.
#[derive(Debug, Clone, Copy, PartialEq, Eq, Hash)]
pub enum CommitGateVerb {
    Mc1,
    Mc2,
}

/// Which faithful player-flight model the game means.
#[derive(Debug, Clone, Copy, PartialEq, Eq, Hash)]
pub enum FlightVerb {
    Mc1,
    Mc2,
}

/// Telemetry key for a verb whose requested arm fell back to MC1.
#[derive(Debug, Clone, Copy, PartialEq, Eq)]
pub enum VerbKind {
    Awake,
    Movement,
    Targeting,
    Damage,
    Objective,
    Corpse,
    CommitGate,
    Flight,
}

/// The telemetry name of each verb kind.
pub open spec fn verb_kind_name_spec(k: VerbKind) -> Seq<char> {
    match k {
        VerbKind::Awake => "awake"@,
        VerbKind::Movement => "movement"@,
        VerbKind::Targeting => "targeting"@,
        VerbKind::Damage => "damage"@,
        VerbKind::Objective => "objective"@,
        VerbKind::Corpse => "corpse"@,
        VerbKind::CommitGate => "commit-gate"@,
        VerbKind::Flight => "flight"@,
    }
}

impl VerbKind {
    /// The verb's telemetry name.
    pub fn name(self) -> (r: &'static str)
        ensures
            r@ == verb_kind_name_spec(self),
    {
        match self {
            VerbKind::Awake => "awake",
            VerbKind::Movement => "movement",
            VerbKind::Targeting => "targeting",
            VerbKind::Damage => "damage",
            VerbKind::Objective => "objective",
            VerbKind::Corpse => "corpse",
            VerbKind::CommitGate => "commit-gate",
            VerbKind::Flight => "flight",
        }
    }
}

/// The per-game verb selection, fixed at world construction.
#[derive(Debug, Clone, Copy, PartialEq, Eq, Hash)]
pub struct VerbSet {
    pub awake: AwakeVerb,
    pub movement: MovementVerb,
    pub targeting: TargetingVerb,
    pub damage: DamageVerb,
    pub objective: ObjectiveVerb,
    pub corpse: CorpseVerb,
    pub commit_gate: CommitGateVerb,
    pub flight: FlightVerb,
}

/// The pristine MC1 column as a value.
pub open spec fn mc1_spec() -> VerbSet {
    VerbSet {
        awake: AwakeVerb::Mc1,
        movement: MovementVerb::Mc1,
        targeting: TargetingVerb::Mc1,
        damage: DamageVerb::Mc1,
        objective: ObjectiveVerb::Mc1,
        corpse: CorpseVerb::Mc1,
        commit_gate: CommitGateVerb::Mc1,
        flight: FlightVerb::Mc1,
    }
}

impl VerbSet {
    /// The pristine MC1 column.
    pub fn mc1() -> (r: VerbSet)
        ensures
            r == mc1_spec(),
    {
        VerbSet {
            awake: AwakeVerb::Mc1,
            movement: MovementVerb::Mc1,
            targeting: TargetingVerb::Mc1,
            damage: DamageVerb::Mc1,
            objective: ObjectiveVerb::Mc1,
            corpse: CorpseVerb::Mc1,
            commit_gate: CommitGateVerb::Mc1,
            flight: FlightVerb::Mc1,
        }
    }

    /// The Hidden Worlds column: the MC1 column with targeting flipped
    /// to the Hidden Worlds arm.
    pub fn mc1hw() -> (r: VerbSet)
        ensures
            r == (VerbSet { targeting: TargetingVerb::Mc1Hw, ..mc1_spec() }),
    {
        VerbSet {
            awake: AwakeVerb::Mc1,
            movement: MovementVerb::Mc1,
            targeting: TargetingVerb::Mc1Hw,
            damage: DamageVerb::Mc1,
            objective: ObjectiveVerb::Mc1,
            corpse: CorpseVerb::Mc1,
            commit_gate: CommitGateVerb::Mc1,
            flight: FlightVerb::Mc1,
        }
    }

    /// The pristine MC2 column: every arm on its MC2 variant.
    pub fn mc2() -> (r: VerbSet)
        ensures
            r == (VerbSet {
                awake: AwakeVerb::Mc2,
                movement: MovementVerb::Mc2,
                targeting: TargetingVerb::Mc2,
                damage: DamageVerb::Mc2,
                objective: ObjectiveVerb::Mc2,
                corpse: CorpseVerb::Mc2,
                commit_gate: CommitGateVerb::Mc2,
                flight: FlightVerb::Mc2,
            }),
    {
        VerbSet {
            awake: AwakeVerb::Mc2,
            movement: MovementVerb::Mc2,
            targeting: TargetingVerb::Mc2,
            damage: DamageVerb::Mc2,
            objective: ObjectiveVerb::Mc2,
            corpse: CorpseVerb::Mc2,
            commit_gate: CommitGateVerb::Mc2,
            flight: FlightVerb::Mc2,
        }
    }
}

impl Default for VerbSet {
    /// The default world column is MC1.
    fn default() -> (r: VerbSet)
        ensures
            r == mc1_spec(),
    {
        VerbSet::mc1()
    }
}

} // verus!
