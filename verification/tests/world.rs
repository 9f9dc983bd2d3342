use bracket_random::prelude::RandomNumberGenerator;
use nox_terrain::calendar::Calendar;
use nox_terrain::chunk_idx;
use nox_terrain::chunk_idxmap;
use nox_terrain::idxmap;
use nox_terrain::mapidx;
use nox_terrain::planet_idx;
use nox_terrain::planet_idxmap;
use nox_terrain::position::PlanetLocation;
use nox_terrain::position::Position;
use nox_terrain::program::Program;
use nox_terrain::program::ProgramMode;
use nox_terrain::raws::get_material_by_tag;
use nox_terrain::raws::load_raws;
use nox_terrain::raws::BiomeType;
use nox_terrain::raws::MaterialDef;
use nox_terrain::raws::MaterialLayer;
use nox_terrain::raws::Raws;
use nox_terrain::raws::Soils;
use nox_terrain::WORLD_WIDTH;

#[test]
fn date_time_renders_padded_fields() {
    let c = Calendar { year: 2525, month: 0, day: 0, hour: 8, minute: 30, second: 0 };
    assert_eq!(c.get_date_time(), "01 Jan 2525 08:30");
    let c = Calendar { year: 3, month: 11, day: 24, hour: 23, minute: 5, second: 59 };
    assert_eq!(c.get_date_time(), "25 Dec 3 23:05");
    let c = Calendar { year: 2600, month: 9, day: 30, hour: 0, minute: 0, second: 0 };
    assert_eq!(c.get_date_time(), "31 Oct 2600 00:00");
}

#[test]
fn tile_indices_round_trip() {
    let idx = mapidx(3, 4, 5);
    assert_eq!(idx, 5 * 64 * 64 + 4 * 64 + 3);
    assert_eq!(idxmap(idx), (3, 4, 5));
    let cidx = chunk_idx(1, 2, 3);
    assert_eq!(cidx, 3 * 16 * 16 + 2 * 16 + 1);
    assert_eq!(chunk_idxmap(cidx), (1, 2, 3));
}

#[test]
fn region_ids_round_trip() {
    let id = planet_idx(10, 10);
    assert_eq!(id, 10 * WORLD_WIDTH + 10);
    assert_eq!(planet_idxmap(id), (10, 10));
    let loc = PlanetLocation { x: 7, y: 9 };
    assert_eq!(loc.to_region_index(), 9 * WORLD_WIDTH + 7);
}

#[test]
fn position_maps_to_tile_index() {
    let p = Position::new(PlanetLocation { x: 1, y: 2 }, 3, 4, 5);
    assert_eq!(p.to_tile_index(), mapidx(3, 4, 5));
}

#[test]
fn program_starts_in_loader_mode() {
    let mut p = Program::new();
    assert_eq!(p.mode, ProgramMode::Loader);
    assert!(!p.initialized);
    p.init();
    assert!(p.initialized);
    assert_eq!(p.mode, ProgramMode::Loader);
    p.mode = ProgramMode::Resume;
    p.resolve_resume();
    assert_eq!(p.mode, ProgramMode::PlayGame);
    p.resolve_resume();
    assert_eq!(p.mode, ProgramMode::PlayGame);
}

fn test_raws() -> Raws {
    load_raws(
        vec![
            MaterialDef { name: "loam".to_string(), layer: MaterialLayer::Soil },
            MaterialDef { name: "granite".to_string(), layer: MaterialLayer::Igneous },
            MaterialDef { name: "granite".to_string(), layer: MaterialLayer::Sedimentary },
        ],
        vec![BiomeType { soils: Soils { soil: 50 } }],
    )
}

#[test]
fn material_lookup_finds_first_match() {
    let raws = test_raws();
    assert_eq!(get_material_by_tag(&raws, "loam"), Some(0));
    assert_eq!(get_material_by_tag(&raws, "granite"), Some(1));
    assert_eq!(get_material_by_tag(&raws, "adamantine"), None);
    let empty = Raws::new();
    assert_eq!(get_material_by_tag(&empty, "loam"), None);
}

#[test]
fn seeded_generators_are_deterministic() {
    // The seeded generator underlying chunk generation repeats its stream
    // for a fixed seed and stays within the die's range.
    let mut r1 = RandomNumberGenerator::seeded(555);
    let mut r2 = RandomNumberGenerator::seeded(555);
    for _ in 0..200 {
        let a = r1.roll_dice(1, 100);
        assert_eq!(a, r2.roll_dice(1, 100));
        assert!((1..=100).contains(&a));
    }
}
