use nox_terrain::chunker::Chunk;
use nox_terrain::chunker::MapChangeBatch;
use nox_terrain::chunker::ChunkType;
use nox_terrain::chunker::PlanetChange;
use nox_terrain::chunker::TileChange;
use nox_terrain::chunker::TileType;
use nox_terrain::chunker::pick_material;
use nox_terrain::mapidx;
use nox_terrain::raws::StrataMaterials;
use nox_terrain::CHUNK_SIZE;
use nox_terrain::TILES_PER_CHUNK;

fn test_strata() -> StrataMaterials {
    StrataMaterials {
        soils: vec![0, 1],
        sand: vec![2],
        sedimentary: vec![3, 4],
        igneous: vec![5, 6, 7],
    }
}

fn flat_altitudes(alt: u32) -> Vec<u32> {
    vec![alt; CHUNK_SIZE * CHUNK_SIZE]
}

fn flat_noise(n: u16) -> Vec<u16> {
    vec![n; TILES_PER_CHUNK]
}

#[test]
fn generate_is_deterministic() {
    let strata = test_strata();
    let altitudes = flat_altitudes(40);
    let noise: Vec<u16> = (0..TILES_PER_CHUNK).map(|i| (i % 1025) as u16).collect();
    let a = Chunk::generate(10, 10, 0, 0, 0, 12345, 50, &strata, &altitudes, &noise);
    let b = Chunk::generate(10, 10, 0, 0, 0, 12345, 50, &strata, &altitudes, &noise);
    assert_eq!(a.world, b.world);
    assert_eq!(a.base, b.base);
    assert!(matches!(a.chunk_type, ChunkType::Populated));
    assert!(matches!(b.chunk_type, ChunkType::Populated));
    assert_eq!(a.tiles, b.tiles);
    assert_eq!(a.revealed, b.revealed);
    assert!(a.tiles.is_some());
    assert!(a.revealed.is_some());
}

#[test]
fn generate_altitude_bands() {
    // A column altitude of 40 in a 64-deep region: molten rock at z = 0,
    // then the lava gap below altitude / 4, solid tiles up to the altitude,
    // and empty above it.
    let strata = test_strata();
    let altitudes = flat_altitudes(40);
    let noise = flat_noise(512);
    for region_z in [0usize, 16, 32] {
        let chunk = Chunk::generate(10, 10, 0, 0, region_z, 999, 50, &strata, &altitudes, &noise);
        assert!(matches!(chunk.chunk_type, ChunkType::Populated));
        let tiles = chunk.tiles.as_ref().unwrap();
        let revealed = chunk.revealed.as_ref().unwrap();
        assert_eq!(tiles.len(), TILES_PER_CHUNK);
        assert_eq!(revealed.len(), TILES_PER_CHUNK);
        for cz in 0..CHUNK_SIZE {
            let z = region_z + cz;
            for cy in 0..CHUNK_SIZE {
                for cx in 0..CHUNK_SIZE {
                    let k = cz * CHUNK_SIZE * CHUNK_SIZE + cy * CHUNK_SIZE + cx;
                    let tile = tiles[k];
                    if z == 0 {
                        assert!(matches!(tile, TileType::SemiMoltenRock), "z={z}");
                    } else if z < 10 {
                        // below altitude / 4: the lava placeholder
                        assert!(matches!(tile, TileType::Empty), "z={z}");
                    } else if z < 20 {
                        // below altitude / 2: igneous only
                        match tile {
                            TileType::Solid { material } => {
                                assert!(strata.igneous.contains(&material), "z={z}")
                            }
                            other => panic!("expected solid igneous at z={z}, got {other:?}"),
                        }
                    } else if z < 36 {
                        // igneous or sedimentary
                        match tile {
                            TileType::Solid { material } => assert!(
                                strata.igneous.contains(&material)
                                    || strata.sedimentary.contains(&material),
                                "z={z}"
                            ),
                            other => panic!("expected solid rock at z={z}, got {other:?}"),
                        }
                    } else if z < 40 {
                        // soil or sand at the surface
                        match tile {
                            TileType::Solid { material } => assert!(
                                strata.soils.contains(&material) || strata.sand.contains(&material),
                                "z={z}"
                            ),
                            other => panic!("expected soil or sand at z={z}, got {other:?}"),
                        }
                    } else {
                        assert!(matches!(tile, TileType::Empty), "z={z}");
                    }
                    // Revealed within two tiles of the surface.
                    assert_eq!(revealed[k], z + 2 > 40, "reveal z={z}");
                }
            }
        }
    }
}

#[test]
fn generate_skips_chunks_above_terrain() {
    let strata = test_strata();
    let altitudes = flat_altitudes(40);
    let noise = flat_noise(512);
    let chunk = Chunk::generate(10, 10, 0, 0, 48, 999, 50, &strata, &altitudes, &noise);
    assert!(matches!(chunk.chunk_type, ChunkType::Empty));
    assert!(chunk.tiles.is_none());
    assert!(chunk.revealed.is_none());
}

#[test]
fn pick_material_is_proportional() {
    let materials = vec![7usize, 8, 9];
    assert_eq!(pick_material(&materials, 0), 7);
    assert_eq!(pick_material(&materials, 512), 8);
    assert_eq!(pick_material(&materials, 1024), 9);
}

#[test]
fn empty_chunk_has_no_storage() {
    let chunk = Chunk::empty(3, 4, 16, 32, 48);
    assert_eq!(chunk.world, (3, 4));
    assert_eq!(chunk.base, (16, 32, 48));
    assert!(matches!(chunk.chunk_type, ChunkType::Empty));
    assert!(chunk.tiles.is_none());
    assert!(chunk.revealed.is_none());
}

#[test]
fn get_tile_type_defaults_to_empty() {
    let chunk = Chunk::empty(0, 0, 0, 0, 0);
    let idx = mapidx(3, 4, 5);
    assert!(matches!(chunk.get_tile_type(idx), TileType::Empty));
}

#[test]
fn apply_change_sets_exactly_one_tile() {
    let mut chunk = Chunk::empty(0, 0, 0, 0, 0);
    let idx = mapidx(3, 4, 5);
    chunk.apply_change(PlanetChange {
        tile_idx: idx,
        change: TileChange::SetTileType { result: TileType::Solid { material: 2 } },
    });
    assert!(matches!(chunk.get_tile_type(idx), TileType::Solid { material: 2 }));
    let other = mapidx(2, 4, 5);
    assert!(matches!(chunk.get_tile_type(other), TileType::Empty));
    let tiles = chunk.tiles.as_ref().unwrap();
    let set = tiles
        .iter()
        .filter(|t| !matches!(t, TileType::Empty))
        .count();
    assert_eq!(set, 1);
}

#[test]
fn change_batches_queue_and_report() {
    let mut batch = MapChangeBatch::new(nox_terrain::planet_idx(10, 10));
    assert!(!batch.changes_requested());
    batch.enqueue_change(PlanetChange {
        tile_idx: mapidx(1, 2, 3),
        change: TileChange::SetTileType { result: TileType::SemiMoltenRock },
    });
    assert!(batch.changes_requested());
    assert_eq!(batch.changes.len(), 1);
}
