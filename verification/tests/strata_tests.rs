use bracket_random::prelude::RandomNumberGenerator;
use nox_terrain::idxmap;
use nox_terrain::mapidx;
use nox_terrain::raws::load_raws;
use nox_terrain::raws::BiomeType;
use nox_terrain::raws::MaterialDef;
use nox_terrain::raws::MaterialLayer;
use nox_terrain::raws::Raws;
use nox_terrain::raws::Soils;
use nox_terrain::raws::StrataMaterials;
use nox_terrain::strata::build_strata;
use nox_terrain::strata::layer_cake;
use nox_terrain::strata::Region;
use nox_terrain::strata::RegionTileType;
use nox_terrain::REGION_HEIGHT;
use nox_terrain::REGION_TILES_COUNT;
use nox_terrain::REGION_WIDTH;

fn test_raws() -> Raws {
    let mats = vec![
        MaterialDef { name: "loam".to_string(), layer: MaterialLayer::Soil },
        MaterialDef { name: "sand".to_string(), layer: MaterialLayer::Sand },
        MaterialDef { name: "limestone".to_string(), layer: MaterialLayer::Sedimentary },
        MaterialDef { name: "granite".to_string(), layer: MaterialLayer::Igneous },
        MaterialDef { name: "basalt".to_string(), layer: MaterialLayer::Igneous },
        MaterialDef { name: "clay".to_string(), layer: MaterialLayer::Soil },
    ];
    let biomes = vec![BiomeType { soils: Soils { soil: 50 } }];
    load_raws(mats, biomes)
}

fn test_noise() -> Vec<u16> {
    (0..REGION_TILES_COUNT).map(|i| (i % 1025) as u16).collect()
}

#[test]
fn strata_covers_every_tile() {
    let raws = test_raws();
    let mut rng = RandomNumberGenerator::seeded(77);
    let hm = vec![40u8; REGION_WIDTH * REGION_HEIGHT];
    let noise = test_noise();
    let strata = build_strata(&mut rng, &hm, &raws.biomes.areas[0], &raws, &noise);

    // One blob id per tile of the volume.
    assert_eq!(strata.map.len(), REGION_TILES_COUNT);
    // The blob count is the fixed base plus a 1..=64 roll.
    let base = 4 * REGION_WIDTH * REGION_HEIGHT;
    let n_strata = strata.material_idx.len();
    assert!(n_strata >= base + 1 && n_strata <= base + 64);
    assert_eq!(strata.counts.len(), n_strata);
    // Every blob id indexes the material table, and every blob resolves to
    // a valid material index.
    for &blob in strata.map.iter() {
        assert!(blob < n_strata);
    }
    for &mat in strata.material_idx.iter() {
        assert!(mat < raws.materials.materials.len());
    }
    // The counts table folds exactly the map: recompute one blob's totals
    // and compare against the stored centroid.
    let probe = strata.map[0];
    let mut cnt = 0usize;
    let mut sx = 0usize;
    let mut sy = 0usize;
    let mut sz = 0usize;
    for i in 0..REGION_TILES_COUNT {
        if strata.map[i] == probe {
            let (x, y, z) = idxmap(i);
            cnt += 1;
            sx += x;
            sy += y;
            sz += z;
        }
    }
    assert!(cnt > 0);
    assert_eq!(strata.counts[probe].0, cnt);
    assert_eq!(strata.counts[probe].1, sx / cnt);
    assert_eq!(strata.counts[probe].2, sy / cnt);
    assert_eq!(strata.counts[probe].3, sz / cnt);
}

#[test]
fn strata_material_table_is_deterministic_in_shape() {
    // Two runs with one seed produce identical strata: the map is a pure
    // function of the noise, and the rolls come from the seeded generator.
    let raws = test_raws();
    let hm = vec![40u8; REGION_WIDTH * REGION_HEIGHT];
    let noise = test_noise();
    let mut rng1 = RandomNumberGenerator::seeded(4242);
    let s1 = build_strata(&mut rng1, &hm, &raws.biomes.areas[0], &raws, &noise);
    let mut rng2 = RandomNumberGenerator::seeded(4242);
    let s2 = build_strata(&mut rng2, &hm, &raws.biomes.areas[0], &raws, &noise);
    assert_eq!(s1.map, s2.map);
    assert_eq!(s1.material_idx, s2.material_idx);
    assert_eq!(s1.counts, s2.counts);
}

#[test]
fn layer_cake_bands_columns() {
    let raws = test_raws();
    let mut rng = RandomNumberGenerator::seeded(7);
    let hm = vec![30u8; REGION_WIDTH * REGION_HEIGHT];
    let noise = test_noise();
    let strata = build_strata(&mut rng, &hm, &raws.biomes.areas[0], &raws, &noise);

    let mut region = Region {
        tile_types: vec![RegionTileType::Empty; REGION_TILES_COUNT],
        material_idx: vec![9999; REGION_TILES_COUNT],
    };
    layer_cake(&hm, &mut region, &strata);

    // An interior column: molten rock at the bottom, magma-flagged empties
    // below one third of the altitude, the blob materials up to the
    // altitude, empty above.
    for z in 0..64usize {
        let idx = mapidx(5, 5, z);
        let tile = region.tile_types[idx];
        if z == 0 {
            assert!(matches!(tile, RegionTileType::SemiMoltenRock));
        } else if z < 10 {
            assert!(matches!(tile, RegionTileType::Empty), "z={z}");
            assert_eq!(region.material_idx[idx], 0, "magma at z={z}");
        } else if z < 30 {
            assert!(matches!(tile, RegionTileType::Solid), "z={z}");
            assert_eq!(
                region.material_idx[idx],
                strata.material_idx[strata.map[idx]],
                "blob material at z={z}"
            );
        } else {
            assert!(matches!(tile, RegionTileType::Empty), "z={z}");
        }
    }
    // An edge column keeps the lava band walled in.
    for z in 1..10usize {
        let idx = mapidx(0, 5, z);
        assert!(matches!(region.tile_types[idx], RegionTileType::SemiMoltenRock), "z={z}");
    }
}

#[test]
fn layer_cake_clamps_tall_columns() {
    let raws = test_raws();
    let mut rng = RandomNumberGenerator::seeded(7);
    // Taller than the region allows: clamped to one below the ceiling.
    let hm = vec![200u8; REGION_WIDTH * REGION_HEIGHT];
    let noise = test_noise();
    let strata = build_strata(&mut rng, &hm, &raws.biomes.areas[0], &raws, &noise);
    let mut region = Region {
        tile_types: vec![RegionTileType::Empty; REGION_TILES_COUNT],
        material_idx: vec![0; REGION_TILES_COUNT],
    };
    layer_cake(&hm, &mut region, &strata);
    // Clamped altitude is 63: the top cell stays empty, the one below is
    // solid.
    assert!(matches!(region.tile_types[mapidx(5, 5, 63)], RegionTileType::Empty));
    assert!(matches!(region.tile_types[mapidx(5, 5, 62)], RegionTileType::Solid));
}

#[test]
fn strata_materials_partition_catalog() {
    let raws = test_raws();
    let sm = StrataMaterials::read(&raws);
    assert_eq!(sm.soils, vec![0, 5]);
    assert_eq!(sm.sand, vec![1]);
    assert_eq!(sm.sedimentary, vec![2]);
    assert_eq!(sm.igneous, vec![3, 4]);
}
