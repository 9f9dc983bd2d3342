use nox_terrain::chunk_store::Planet;
use nox_terrain::position::PlanetLocation;
use nox_terrain::region_builder::next_build_phase;
use nox_terrain::region_builder::phase_step;
use nox_terrain::region_builder::update_status;
use nox_terrain::region_builder::BuildAction;
use nox_terrain::region_builder::BuildWait;
use nox_terrain::region_builder::RegionBuilder;
use nox_terrain::region_builder::RegionBuilderStatus;
use nox_terrain::region_builder::RegionGen;

fn test_planet() -> Planet {
    Planet { rng_seed: 1, landblocks: Vec::new() }
}

#[test]
fn start_spawns_exactly_once() {
    let mut builder = RegionBuilder::new(test_planet(), PlanetLocation { x: 10, y: 10 });
    assert!(!builder.started);
    let first = builder.start();
    let second = builder.start();
    assert!(first);
    assert!(!second);
    assert!(builder.started);
}

#[test]
fn phases_advance_in_order_without_water() {
    let order = [
        RegionBuilderStatus::Initializing,
        RegionBuilderStatus::Chunking,
        RegionBuilderStatus::Loaded,
        RegionBuilderStatus::Ramping,
        RegionBuilderStatus::Vegetation,
        RegionBuilderStatus::Crashing,
        RegionBuilderStatus::Trees,
        RegionBuilderStatus::Debris,
    ];
    for w in order.windows(2) {
        assert_eq!(next_build_phase(w[0]), Some(w[1]));
    }
    assert_eq!(next_build_phase(RegionBuilderStatus::Debris), None);
    // The disabled water phase is never entered and leads nowhere.
    assert_eq!(next_build_phase(RegionBuilderStatus::Water), None);
    for s in order {
        assert_ne!(next_build_phase(s), Some(RegionBuilderStatus::Water));
    }
}

#[test]
fn phase_steps_name_their_work() {
    assert_eq!(
        phase_step(RegionBuilderStatus::Initializing),
        (BuildAction::SetPlanet, BuildWait::NoWait)
    );
    assert_eq!(
        phase_step(RegionBuilderStatus::Chunking),
        (BuildAction::SpawnRegion, BuildWait::UntilRegionLoaded)
    );
    assert_eq!(
        phase_step(RegionBuilderStatus::Ramping),
        (BuildAction::BuildRamps, BuildWait::UntilChangesDrained)
    );
    assert_eq!(
        phase_step(RegionBuilderStatus::Vegetation),
        (BuildAction::GrowPlants, BuildWait::FixedPause)
    );
    assert_eq!(
        phase_step(RegionBuilderStatus::Crashing),
        (BuildAction::BuildEscapePod, BuildWait::UntilChangesDrained)
    );
    assert_eq!(
        phase_step(RegionBuilderStatus::Trees),
        (BuildAction::PlantTrees, BuildWait::NoWait)
    );
    assert_eq!(
        phase_step(RegionBuilderStatus::Debris),
        (BuildAction::DebrisTrail, BuildWait::UntilChangesDrained)
    );
}

#[test]
fn status_reports_progress_messages() {
    let builder = RegionBuilder::new(test_planet(), PlanetLocation { x: 0, y: 0 });
    let mut gen = RegionGen::new();
    assert_eq!(gen.status, RegionBuilderStatus::Initializing);
    assert_eq!(builder.status(&gen), "Initializing");
    update_status(&mut gen, RegionBuilderStatus::Chunking);
    assert_eq!(builder.status(&gen), "Dividing & Conquering");
    update_status(&mut gen, RegionBuilderStatus::Loaded);
    assert_eq!(builder.status(&gen), "Region activated, making it pretty");
    update_status(&mut gen, RegionBuilderStatus::Ramping);
    assert_eq!(builder.status(&gen), "Smoothing Rough Edges");
    update_status(&mut gen, RegionBuilderStatus::Vegetation);
    assert_eq!(builder.status(&gen), "Re-seeding the lawn");
    update_status(&mut gen, RegionBuilderStatus::Crashing);
    assert_eq!(builder.status(&gen), "Crash Landing");
    update_status(&mut gen, RegionBuilderStatus::Trees);
    assert_eq!(builder.status(&gen), "Planting trees");
    update_status(&mut gen, RegionBuilderStatus::Debris);
    assert_eq!(builder.status(&gen), "Making a terrible mess");
    update_status(&mut gen, RegionBuilderStatus::Water);
    assert_eq!(builder.status(&gen), "Just Add Water");
}
