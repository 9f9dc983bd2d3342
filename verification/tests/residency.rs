use nox_terrain::chunk_store::ChunkStatus;
use nox_terrain::chunk_store::ChunkStore;
use nox_terrain::chunk_store::GameCamera;
use nox_terrain::chunk_store::Landblock;
use nox_terrain::chunk_store::Planet;
use nox_terrain::planet_idx;
use nox_terrain::raws::load_raws;
use nox_terrain::raws::BiomeType;
use nox_terrain::raws::MaterialDef;
use nox_terrain::raws::MaterialLayer;
use nox_terrain::raws::Soils;
use nox_terrain::CHUNKS_PER_REGION;
use nox_terrain::WORLD_WIDTH;

fn keys(store: &ChunkStore) -> Vec<usize> {
    let mut k: Vec<usize> = store.regions.iter().map(|e| e.0).collect();
    k.sort();
    k
}

fn neighborhood(cx: usize, cy: usize) -> Vec<usize> {
    let xlo = cx.saturating_sub(1);
    let xhi = (cx + 1).min(WORLD_WIDTH - 1);
    let ylo = cy.saturating_sub(1);
    let yhi = (cy + 1).min(WORLD_WIDTH - 1);
    let mut ids = Vec::new();
    for y in ylo..=yhi {
        for x in xlo..=xhi {
            ids.push(planet_idx(x, y));
        }
    }
    ids.sort();
    ids.dedup();
    ids
}

#[test]
fn camera_keeps_exactly_the_neighborhood() {
    let mut store = ChunkStore::new();
    let camera = GameCamera { tile_x: 5, tile_y: 5 };
    store.manage_for_camera(&camera);
    // Exactly the nine regions (4..=6) x (4..=6) are present.
    assert_eq!(keys(&store), neighborhood(5, 5));
    assert_eq!(store.regions.len(), 9);
}

#[test]
fn camera_move_evicts_stale_regions() {
    let mut store = ChunkStore::new();
    store.manage_for_camera(&GameCamera { tile_x: 5, tile_y: 5 });
    store.manage_for_camera(&GameCamera { tile_x: 100, tile_y: 100 });
    assert_eq!(keys(&store), neighborhood(100, 100));
    for (_, rc) in store.regions.iter() {
        assert!(!rc.required);
    }
}

#[test]
fn required_regions_survive_eviction() {
    let mut store = ChunkStore::new();
    store.with_playable_region(50, 50);
    store.manage_for_camera(&GameCamera { tile_x: 5, tile_y: 5 });
    let mut expected = neighborhood(5, 5);
    expected.push(planet_idx(50, 50));
    expected.sort();
    assert_eq!(keys(&store), expected);
    let required_id = planet_idx(50, 50);
    let entry = store.regions.iter().find(|e| e.0 == required_id).unwrap();
    assert!(entry.1.required);
    // Outside the neighbourhood the retained region is kept untouched:
    // its chunks stay pinned and unloaded.
    for slot in entry.1.chunks.iter() {
        assert!(slot.required);
        assert!(matches!(slot.status, ChunkStatus::NotLoaded));
    }
    // Every tracked region is required or in the camera's neighbourhood.
    let nbhd = neighborhood(5, 5);
    for (id, rc) in store.regions.iter() {
        assert!(rc.required || nbhd.contains(id));
    }
}

#[test]
fn camera_neighborhood_clamps_at_world_edge() {
    let mut store = ChunkStore::new();
    store.manage_for_camera(&GameCamera { tile_x: 0, tile_y: 0 });
    assert_eq!(keys(&store), neighborhood(0, 0));
    assert_eq!(store.regions.len(), 4);
}

#[test]
fn playable_region_pins_all_chunks() {
    let mut store = ChunkStore::new();
    store.with_playable_region(10, 10);
    assert_eq!(store.regions.len(), 1);
    let (id, rc) = &store.regions[0];
    assert_eq!(*id, planet_idx(10, 10));
    assert!(rc.required);
    assert_eq!(rc.chunks.len(), CHUNKS_PER_REGION);
    for slot in rc.chunks.iter() {
        assert!(slot.required);
        assert!(matches!(slot.status, ChunkStatus::NotLoaded));
    }
    // Marking it again lets expired chunks reload and keeps it pinned.
    store.regions[0].1.chunks[3].status = ChunkStatus::Expired;
    store.with_playable_region(10, 10);
    assert_eq!(store.regions.len(), 1);
    assert!(matches!(store.regions[0].1.chunks[3].status, ChunkStatus::NotLoaded));
}

#[test]
fn camera_pass_queues_chunks_for_generation() {
    let mut store = ChunkStore::new();
    store.manage_for_camera(&GameCamera { tile_x: 5, tile_y: 5 });
    for (_, rc) in store.regions.iter() {
        for slot in rc.chunks.iter() {
            assert!(matches!(slot.status, ChunkStatus::Loading));
        }
    }
}

#[test]
fn store_holds_planet_and_strata_context() {
    let mut store = ChunkStore::new();
    assert!(store.planet.is_none());
    assert!(store.strata.is_none());
    let raws = load_raws(
        vec![
            MaterialDef { name: "loam".to_string(), layer: MaterialLayer::Soil },
            MaterialDef { name: "sand".to_string(), layer: MaterialLayer::Sand },
            MaterialDef { name: "limestone".to_string(), layer: MaterialLayer::Sedimentary },
            MaterialDef { name: "granite".to_string(), layer: MaterialLayer::Igneous },
        ],
        vec![BiomeType { soils: Soils { soil: 40 } }],
    );
    store.verify_strata(&raws);
    let sm = store.strata.as_ref().unwrap();
    assert_eq!(sm.soils, vec![0]);
    assert_eq!(sm.igneous, vec![3]);
    store.set_planet(Planet {
        rng_seed: 42,
        landblocks: vec![Landblock { biome_idx: 0, height: 40 }; WORLD_WIDTH * WORLD_WIDTH],
    });
    assert_eq!(store.planet.as_ref().unwrap().rng_seed, 42);
}
