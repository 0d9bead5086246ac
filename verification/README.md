# mgc_sim

A verified core of the Magic Carpet / Magic Carpet 2 simulation,
written in Verus: every executable function carries a `requires` /
`ensures` contract over a mathematical model of the world, and Verus
proves the code against it.

## Layout

- `src/world.rs` — the shared world model: the entity pool (`Ent`), the
  256 x 256 terrain planes, the per-world registers, the StageVar state,
  and the specs they are read through (`PlaneView`, cell chains, body
  segment chains, frame predicates).
- `src/verbs.rs`, `src/spells.rs`, `src/patches.rs` — the per-game verb
  seam, the MC1 spell table and the bug-patch switches.
- `src/mobs.rs` — the MC1 creature primitives (sprites, capability bits,
  altitude clamp, angles, death and awake passes) and the simple
  creature and scenery spawners.
- `src/mc2/` — the MC2 column: the spell-table parser and level patch
  (`spells`), castles (`castle`), the cave invariant, perimeter walks,
  the pillar machine and the sculptor spawners (`cave`), flood helpers (`flood`), the square root,
  dome cap and auto-flatten set (`morph`), the terrain riser (`riser`),
  the StageVar hold gates (`stagevars`), the creature helpers and awake
  pass, footprint clears and spawners (`mobs`), the doomsday pyramid's
  state machine (`doomsday`), and the small effect, projectile and
  scenery pieces (`effects`, `proj`, `scenery`, `tail`).
- `tests/` — executable scenarios for each module.

## Scope

The crate holds the handlers that stand on the world model, and some
that lean on engine services it does not carry: entity allocation and
cell-chain linking, terrain height sampling under a position, the angle
and sine/cosine tables, the per-entity random stream, the area and
mailbox damage writers, region retiling and tile painting, and the
creature behavior and sprite-parameter tables. Where a handler only
needs a service's result, it takes that result as an input and its
contract holds for every value of it: the doomsday pyramid's state
machine (`mc2_doomsday_tick`) takes the devour and attack passes'
results, its random draws, the spawn slots, the ground height and the
bearing to the player, runs its own intake, summon pick, footprint wipe
and facing step, and returns what it leaves to the engine (the scenery
to free, the attack and summon passes); the spawners (the pyramid, simple creatures,
goats, villagers, archers, balloons, scenery and falling props, the cave
sculptors, bolts, ground fires, smoke emitters and particles, auras and
fire trails) take the slot the allocator gave and their draws, and leave
the map-cell link to the engine. Drawing from a random stream advances it, and that is the
caller's part.

Handlers whose work is interleaved with those services cell by cell or
entity by entity are not included: the pyramid's summon, attack and
devour passes; the cave-in, pit/hill, mesa, tube, dome and drip
terrain machines; buildings, the castle painter, roster, balloons,
build, standing, eject and downgrade steps; fire orbs, whirlwinds,
meteors, fissures, mines, smoke, fire and load beams; projectile flight
and the attack launchers; creature brains, packs, movers, wander and
chase; the static-ground reconstruction; and the multi-entity spawners.
What is here is complete for what it covers: each function's contract
pins its result and its effect on the world exactly.

The laws the library keeps are public proof functions next to the code
they speak of, for example `seal_fixup_settles` (cave), `hold_then_release`
(stagevars), `raise_settles_built` (riser), `pillar_grow_monotone`
(cave), `settle_stays_in_range` (flood), `death_script_advances` (doomsday)
and `level_init_patch_idempotent` (spells).
