//! The one-time, multi-phase terrain build for a freshly entered region.
//!
//! The build itself runs off the interactive thread: it activates the
//! region, waits for it to load, then shapes the terrain phase by phase
//! (ramps, vegetation, the crash site, trees, debris). The library owns the
//! decisions: the strict phase order, the action each phase performs, the
//! wait that follows it, and the start latch that keeps a second start from
//! spawning a second build. The runner performs the actions and the waits.

use crate::chunk_store::Planet;
use crate::position::PlanetLocation;
use vstd::prelude::*;
use vstd::string::StringExecFns;

verus! {

/// Progress of a region build, published for the progress indicator.
#[derive(Clone, Copy, PartialEq, Eq, Structural, Debug)]
pub enum RegionBuilderStatus {
    Initializing,
    Chunking,
    Loaded,
    Water,
    Ramping,
    Vegetation,
    Trees,
    Crashing,
    Debris,
}

/// The terrain-shaping work one phase performs.
#[derive(Clone, Copy, PartialEq, Eq, Structural, Debug)]
pub enum BuildAction {
    /// Publish the phase and do nothing else.
    NoAction,
    /// Install the planet as the generation context.
    SetPlanet,
    /// Request activation of the playable region.
    SpawnRegion,
    /// Enqueue ramp tiles where a column meets a higher neighbour.
    BuildRamps,
    /// Seed the surface with plants.
    GrowPlants,
    /// Carve the crash site into the terrain.
    BuildEscapePod,
    /// Place trees on the surface.
    PlantTrees,
    /// Scatter the debris trail.
    DebrisTrail,
}

/// What the runner waits on after a phase's action.
#[derive(Clone, Copy, PartialEq, Eq, Structural, Debug)]
pub enum BuildWait {
    /// Go straight to the next phase.
    NoWait,
    /// Poll until the region reports loaded.
    UntilRegionLoaded,
    /// Poll until the terrain change queue drains.
    UntilChangesDrained,
    /// Pause for a fixed interval.
    FixedPause,
}

/// The position of a phase in the build order. The `Water` phase is
/// disabled: no transition produces it, and its rank is left out of the
/// order.
pub open spec fn phase_rank(s: RegionBuilderStatus) -> int {
    match s {
        RegionBuilderStatus::Initializing => 0,
        RegionBuilderStatus::Chunking => 1,
        RegionBuilderStatus::Loaded => 2,
        RegionBuilderStatus::Ramping => 3,
        RegionBuilderStatus::Vegetation => 4,
        RegionBuilderStatus::Crashing => 5,
        RegionBuilderStatus::Trees => 6,
        RegionBuilderStatus::Debris => 7,
        RegionBuilderStatus::Water => 8,
    }
}

/// The phase that follows `s`, or `None` when the build is done. The
/// disabled `Water` phase is never produced and leads nowhere.
pub open spec fn spec_next_phase(s: RegionBuilderStatus) -> Option<RegionBuilderStatus> {
    match s {
        RegionBuilderStatus::Initializing => Some(RegionBuilderStatus::Chunking),
        RegionBuilderStatus::Chunking => Some(RegionBuilderStatus::Loaded),
        RegionBuilderStatus::Loaded => Some(RegionBuilderStatus::Ramping),
        RegionBuilderStatus::Ramping => Some(RegionBuilderStatus::Vegetation),
        RegionBuilderStatus::Vegetation => Some(RegionBuilderStatus::Crashing),
        RegionBuilderStatus::Crashing => Some(RegionBuilderStatus::Trees),
        RegionBuilderStatus::Trees => Some(RegionBuilderStatus::Debris),
        RegionBuilderStatus::Debris => None,
        RegionBuilderStatus::Water => None,
    }
}

/// The phase that follows `s`, or `None` when the build is done.
pub fn next_build_phase(s: RegionBuilderStatus) -> (r: Option<RegionBuilderStatus>)
    ensures
        r == spec_next_phase(s),
{
    match s {
        RegionBuilderStatus::Initializing => Some(RegionBuilderStatus::Chunking),
        RegionBuilderStatus::Chunking => Some(RegionBuilderStatus::Loaded),
        RegionBuilderStatus::Loaded => Some(RegionBuilderStatus::Ramping),
        RegionBuilderStatus::Ramping => Some(RegionBuilderStatus::Vegetation),
        RegionBuilderStatus::Vegetation => Some(RegionBuilderStatus::Crashing),
        RegionBuilderStatus::Crashing => Some(RegionBuilderStatus::Trees),
        RegionBuilderStatus::Trees => Some(RegionBuilderStatus::Debris),
        RegionBuilderStatus::Debris => None,
        RegionBuilderStatus::Water => None,
    }
}

/// Phases advance strictly in the published order: each transition raises
/// the rank by exactly one, so no phase is skipped and none repeats.
pub proof fn lemma_phase_order_strict(s: RegionBuilderStatus, t: RegionBuilderStatus)
    requires
        spec_next_phase(s) == Some(t),
    ensures
        phase_rank(t) == phase_rank(s) + 1,
        t != RegionBuilderStatus::Water,
{
}

/// The action a phase performs and the wait that follows it.
pub open spec fn spec_phase_step(s: RegionBuilderStatus) -> (BuildAction, BuildWait) {
    match s {
        RegionBuilderStatus::Initializing => (BuildAction::SetPlanet, BuildWait::NoWait),
        RegionBuilderStatus::Chunking => (BuildAction::SpawnRegion, BuildWait::UntilRegionLoaded),
        RegionBuilderStatus::Loaded => (BuildAction::NoAction, BuildWait::NoWait),
        RegionBuilderStatus::Ramping => (BuildAction::BuildRamps, BuildWait::UntilChangesDrained),
        RegionBuilderStatus::Vegetation => (BuildAction::GrowPlants, BuildWait::FixedPause),
        RegionBuilderStatus::Crashing => (BuildAction::BuildEscapePod, BuildWait::UntilChangesDrained),
        RegionBuilderStatus::Trees => (BuildAction::PlantTrees, BuildWait::NoWait),
        RegionBuilderStatus::Debris => (BuildAction::DebrisTrail, BuildWait::UntilChangesDrained),
        RegionBuilderStatus::Water => (BuildAction::NoAction, BuildWait::NoWait),
    }
}

/// The action a phase performs and the wait that follows it.
pub fn phase_step(s: RegionBuilderStatus) -> (r: (BuildAction, BuildWait))
    ensures
        r == spec_phase_step(s),
{
    match s {
        RegionBuilderStatus::Initializing => (BuildAction::SetPlanet, BuildWait::NoWait),
        RegionBuilderStatus::Chunking => (BuildAction::SpawnRegion, BuildWait::UntilRegionLoaded),
        RegionBuilderStatus::Loaded => (BuildAction::NoAction, BuildWait::NoWait),
        RegionBuilderStatus::Ramping => (BuildAction::BuildRamps, BuildWait::UntilChangesDrained),
        RegionBuilderStatus::Vegetation => (BuildAction::GrowPlants, BuildWait::FixedPause),
        RegionBuilderStatus::Crashing => (BuildAction::BuildEscapePod, BuildWait::UntilChangesDrained),
        RegionBuilderStatus::Trees => (BuildAction::PlantTrees, BuildWait::NoWait),
        RegionBuilderStatus::Debris => (BuildAction::DebrisTrail, BuildWait::UntilChangesDrained),
        RegionBuilderStatus::Water => (BuildAction::NoAction, BuildWait::NoWait),
    }
}

/// The published progress of the running build.
pub struct RegionGen {
    pub status: RegionBuilderStatus,
}

impl RegionGen {
    /// A build that has not begun reports `Initializing`.
    pub fn new() -> (r: RegionGen)
        ensures
            r.status == RegionBuilderStatus::Initializing,
    {
        RegionGen { status: RegionBuilderStatus::Initializing }
    }
}

/// Publishes a new phase to the progress holder.
pub fn update_status(gen: &mut RegionGen, new_status: RegionBuilderStatus)
    ensures
        final(gen).status == new_status,
{
    gen.status = new_status;
}

/// Orchestrates the one-time build of a freshly entered region.
pub struct RegionBuilder {
    pub planet: Planet,
    pub crash_site: PlanetLocation,
    pub started: bool,
}

impl RegionBuilder {
    /// A builder for the given planet and crash site; nothing started yet.
    pub fn new(planet: Planet, crash_site: PlanetLocation) -> (r: RegionBuilder)
        ensures
            r.planet == planet,
            r.crash_site == crash_site,
            !r.started,
    {
        RegionBuilder { planet, crash_site, started: false }
    }

    /// Latches the start: the caller spawns the background build exactly
    /// when `true` comes back, so a second call spawns nothing.
    pub fn start(&mut self) -> (spawn: bool)
        ensures
            final(self).started,
            spawn == !old(self).started,
            final(self).planet == old(self).planet,
            final(self).crash_site == old(self).crash_site,
    {
        if !self.started {
            self.started = true;
            true
        } else {
            false
        }
    }

    /// The human-readable progress message for the published phase.
    pub fn status(&self, gen: &RegionGen) -> (r: String)
        ensures
            r@ == spec_status_message(gen.status),
    {
        match gen.status {
            RegionBuilderStatus::Initializing => String::from_str("Initializing"),
            RegionBuilderStatus::Chunking => String::from_str("Dividing & Conquering"),
            RegionBuilderStatus::Loaded => String::from_str("Region activated, making it pretty"),
            RegionBuilderStatus::Ramping => String::from_str("Smoothing Rough Edges"),
            RegionBuilderStatus::Crashing => String::from_str("Crash Landing"),
            RegionBuilderStatus::Water => String::from_str("Just Add Water"),
            RegionBuilderStatus::Vegetation => String::from_str("Re-seeding the lawn"),
            RegionBuilderStatus::Debris => String::from_str("Making a terrible mess"),
            RegionBuilderStatus::Trees => String::from_str("Planting trees"),
        }
    }
}

/// The progress message of each phase.
pub open spec fn spec_status_message(s: RegionBuilderStatus) -> Seq<char> {
    match s {
        RegionBuilderStatus::Initializing => "Initializing"@,
        RegionBuilderStatus::Chunking => "Dividing & Conquering"@,
        RegionBuilderStatus::Loaded => "Region activated, making it pretty"@,
        RegionBuilderStatus::Ramping => "Smoothing Rough Edges"@,
        RegionBuilderStatus::Crashing => "Crash Landing"@,
        RegionBuilderStatus::Water => "Just Add Water"@,
        RegionBuilderStatus::Vegetation => "Re-seeding the lawn"@,
        RegionBuilderStatus::Debris => "Making a terrible mess"@,
        RegionBuilderStatus::Trees => "Planting trees"@,
    }
}

/// Exactly one of two consecutive starts on one builder spawns the build:
/// the first call of a fresh builder answers `true`, and any call after a
/// start answers `false`.
pub proof fn lemma_start_once(
    b0: RegionBuilder,
    b1: RegionBuilder,
    b2: RegionBuilder,
    spawn1: bool,
    spawn2: bool,
)
    requires
        !b0.started,
        b1.started,
        spawn1 == !b0.started,
        b2.started,
        spawn2 == !b1.started,
    ensures
        spawn1,
        !spawn2,
{
}

} // verus!
