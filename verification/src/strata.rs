//! Strata building and the layering pass over a region volume.
//!
//! Strata building partitions the region volume into noise-defined blobs
//! and assigns each blob a material: soil or sand near the surface (weighted
//! by the biome's soil ratio), sedimentary in the middle band, igneous
//! deepest. The layering pass then writes the banded tiles of every column:
//! molten rock at the bottom, a lava band above it walled in at the region
//! edges, then the blob materials up to the column's altitude.
//!
//! Noise arrives as plain values normalised to `0..=NOISE_SCALE` standing
//! for the raw field's `[-1, 1]`, one sample per tile of the volume.

use crate::raws::BiomeType;
use crate::raws::MaterialLayer;
use crate::raws::Raws;
use crate::raws::StrataMaterials;
use crate::rng::random_slice_entry_usize;
use crate::rng::roll_dice;
use crate::NOISE_SCALE;
use crate::REGION_DEPTH;
use crate::REGION_HEIGHT;
use crate::REGION_TILES_COUNT;
use crate::REGION_WIDTH;
use bracket_random::prelude::RandomNumberGenerator;
use vstd::prelude::*;

verus! {

/// The coarse tile classification the region builder works with; the
/// material of a solid tile lives in the region's parallel material array.
#[derive(Clone, Copy, PartialEq, Eq, Structural, Debug)]
pub enum RegionTileType {
    Empty,
    SemiMoltenRock,
    Solid,
}

/// One region volume under construction: a tile classification and a
/// material index per tile.
pub struct Region {
    pub tile_types: Vec<RegionTileType>,
    pub material_idx: Vec<usize>,
}

/// Per-region strata: a blob id per tile, a material per blob, and the
/// per-blob accumulated `(count, sum x, sum y, sum z)` the centroids come
/// from.
pub struct Strata {
    pub map: Vec<usize>,
    pub material_idx: Vec<usize>,
    pub counts: Vec<(usize, usize, usize, usize)>,
}

/// The blob id of a normalised noise sample: the sample selects one of the
/// `n_strata` blobs proportionally, clamped to the last.
pub open spec fn spec_blob_id(noise: u16, n_strata: int) -> int {
    let id = (noise * n_strata) / (NOISE_SCALE as int);
    if id < n_strata {
        id
    } else {
        n_strata - 1
    }
}

/// The number of tiles of a volume prefix whose blob id is `b`, together
/// with the sums of their x, y and z coordinates — the running totals the
/// centroids are folded from.
pub open spec fn spec_blob_totals(map: Seq<usize>, b: int) -> (int, int, int, int)
    decreases map.len(),
{
    if map.len() == 0 {
        (0, 0, 0, 0)
    } else {
        let t = spec_blob_totals(map.drop_last(), b);
        let i = map.len() - 1;
        if map.last() as int == b {
            (t.0 + 1, t.1 + crate::spec_idx_x(i), t.2 + crate::spec_idx_y(i), t.3
                + crate::spec_idx_z(i))
        } else {
            t
        }
    }
}

/// The layer a blob's material may be drawn from, by the depth of its
/// centroid below its column's altitude. An empty blob falls back to
/// igneous. The surface threshold moves by a bounded die roll, so just
/// under the surface either the surface choice or the rock choice is
/// allowed; the sedimentary/igneous split below it is fixed by the
/// centroid's depth alone.
pub open spec fn spec_blob_material_layer_ok(
    count: (usize, usize, usize, usize),
    hm: Seq<u8>,
    mats: Seq<crate::raws::MaterialDef>,
    m: usize,
) -> bool {
    let cnt = count.0;
    let cex = count.1 as int;
    let cey = count.2 as int;
    let cz = count.3 as int;
    if cnt == 0 {
        mats[m as int].layer == MaterialLayer::Igneous
    } else {
        let alt = hm[cey * (REGION_WIDTH as int) + cex] as int + (REGION_DEPTH as int) / 2;
        let surface = mats[m as int].layer == MaterialLayer::Soil || mats[m as int].layer
            == MaterialLayer::Sand;
        let rock = if 2 * cz > alt - 10 {
            mats[m as int].layer == MaterialLayer::Sedimentary
        } else {
            mats[m as int].layer == MaterialLayer::Igneous
        };
        if cz + 2 > alt {
            surface
        } else if cz + 5 > alt {
            surface || rock
        } else {
            rock
        }
    }
}

/// Whether some material of the catalog carries the given layer.
pub open spec fn spec_has_layer(mats: Seq<crate::raws::MaterialDef>, layer: MaterialLayer) -> bool {
    exists|i: int| 0 <= i < mats.len() && (#[trigger] mats[i]).layer == layer
}

/// What `build_strata` promises of its result, relative to the catalog and
/// the noise samples it was given. The number of blobs is the fixed base
/// count plus a die roll; every tile's blob id is the quantised noise
/// sample, so it indexes the material table; and every blob resolves to a
/// valid material index.
pub open spec fn strata_post(
    s: Strata,
    mats: Seq<crate::raws::MaterialDef>,
    hm: Seq<u8>,
    cell_noise: Seq<u16>,
) -> bool {
    let n_strata = s.material_idx@.len() as int;
    &&& s.map@.len() == REGION_TILES_COUNT
    &&& 4 * REGION_WIDTH * REGION_HEIGHT + 1 <= n_strata <= 4 * REGION_WIDTH * REGION_HEIGHT + 64
    &&& s.counts@.len() == n_strata
    &&& forall|i: int|
        0 <= i < REGION_TILES_COUNT ==> (#[trigger] s.map@[i]) as int == spec_blob_id(
            cell_noise[i],
            n_strata,
        )
    &&& forall|i: int| 0 <= i < REGION_TILES_COUNT ==> (#[trigger] s.map@[i]) < n_strata
    &&& forall|b: int| 0 <= b < n_strata ==> (#[trigger] s.material_idx@[b]) < mats.len()
    &&& forall|b: int|
        0 <= b < n_strata ==> spec_blob_material_layer_ok(
            (#[trigger] s.counts@[b]),
            hm,
            mats,
            s.material_idx@[b],
        )
    &&& forall|b: int|
        0 <= b < n_strata ==> {
            let t = spec_blob_totals(s.map@, b);
            &&& (#[trigger] s.counts@[b]).0 as int == t.0
            &&& if t.0 == 0 {
                s.counts@[b].1 == 0 && s.counts@[b].2 == 0 && s.counts@[b].3 == 0
            } else {
                s.counts@[b].1 as int == t.1 / t.0 && s.counts@[b].2 as int == t.2 / t.0
                    && s.counts@[b].3 as int == t.3 / t.0
            }
        }
}

/// Partitions the region volume into noise-defined blobs and assigns each
/// blob a material by the depth of its centroid: soil or sand at the
/// surface (weighted by the biome's soil ratio), sedimentary in the middle
/// band, igneous deepest. Blobs no tile landed in fall back to igneous.
pub fn build_strata(
    rng: &mut RandomNumberGenerator,
    hm: &Vec<u8>,
    biome: &BiomeType,
    raws: &Raws,
    cell_noise: &Vec<u16>,
) -> (r: Strata)
    requires
        hm@.len() == REGION_WIDTH * REGION_HEIGHT,
        cell_noise@.len() == REGION_TILES_COUNT,
        forall|i: int| 0 <= i < cell_noise@.len() ==> (#[trigger] cell_noise@[i]) <= NOISE_SCALE,
        raws.materials.materials@.len() < i32::MAX as usize,
        spec_has_layer(raws.materials.materials@, MaterialLayer::Soil),
        spec_has_layer(raws.materials.materials@, MaterialLayer::Sand),
        spec_has_layer(raws.materials.materials@, MaterialLayer::Sedimentary),
        spec_has_layer(raws.materials.materials@, MaterialLayer::Igneous),
    ensures
        strata_post(r, raws.materials.materials@, hm@, cell_noise@),
{
    let sm = StrataMaterials::read(raws);
    let soils = sm.soils;
    let sands = sm.sand;
    let sedimentaries = sm.sedimentary;
    let igneouses = sm.igneous;
    proof {
        let mats = raws.materials.materials@;
        let si = choose|i: int| 0 <= i < mats.len() && (#[trigger] mats[i]).layer
            == MaterialLayer::Soil;
        assert(soils@.contains(si as usize));
        let sa = choose|i: int| 0 <= i < mats.len() && (#[trigger] mats[i]).layer
            == MaterialLayer::Sand;
        assert(sands@.contains(sa as usize));
        let se = choose|i: int| 0 <= i < mats.len() && (#[trigger] mats[i]).layer
            == MaterialLayer::Sedimentary;
        assert(sedimentaries@.contains(se as usize));
        let ig = choose|i: int| 0 <= i < mats.len() && (#[trigger] mats[i]).layer
            == MaterialLayer::Igneous;
        assert(igneouses@.contains(ig as usize));
        crate::raws::lemma_layer_indices_len(mats, MaterialLayer::Soil, soils@);
        crate::raws::lemma_layer_indices_len(mats, MaterialLayer::Sand, sands@);
        crate::raws::lemma_layer_indices_len(mats, MaterialLayer::Sedimentary, sedimentaries@);
        crate::raws::lemma_layer_indices_len(mats, MaterialLayer::Igneous, igneouses@);
    }

    let roll = roll_dice(rng, 1, 64);
    let n_strata: usize = (REGION_WIDTH * REGION_HEIGHT) * 4 + (roll as usize);

    let mut map: Vec<usize> = Vec::with_capacity(REGION_TILES_COUNT);
    let mut counts: Vec<(usize, usize, usize, usize)> = Vec::with_capacity(n_strata);
    let mut ci: usize = 0;
    while ci < n_strata
        invariant
            ci <= n_strata,
            counts@.len() == ci,
            forall|b: int| 0 <= b < ci ==> (#[trigger] counts@[b]) == (0usize, 0usize, 0usize, 0usize),
        decreases n_strata - ci,
    {
        counts.push((0, 0, 0, 0));
        ci = ci + 1;
    }

    let mut k: usize = 0;
    while k < REGION_TILES_COUNT
        invariant
            4 * REGION_WIDTH * REGION_HEIGHT + 1 <= n_strata <= 4 * REGION_WIDTH * REGION_HEIGHT
                + 64,
            cell_noise@.len() == REGION_TILES_COUNT,
            forall|i: int| 0 <= i < cell_noise@.len() ==> (#[trigger] cell_noise@[i]) <= NOISE_SCALE,
            k <= REGION_TILES_COUNT,
            map@.len() == k,
            counts@.len() == n_strata,
            forall|j: int|
                0 <= j < k ==> (#[trigger] map@[j]) as int == spec_blob_id(
                    cell_noise@[j],
                    n_strata as int,
                ),
            forall|j: int| 0 <= j < k ==> (#[trigger] map@[j]) < n_strata,
            forall|b: int|
                0 <= b < n_strata ==> (#[trigger] counts@[b]).0 <= k && counts@[b].1 <= counts@[b].0
                    * 63 && counts@[b].2 <= counts@[b].0 * 63 && counts@[b].3 <= counts@[b].0 * 63,
            forall|b: int|
                0 <= b < n_strata ==> {
                    let t = spec_blob_totals(map@, b);
                    (#[trigger] counts@[b]).0 as int == t.0 && counts@[b].1 as int == t.1
                        && counts@[b].2 as int == t.2 && counts@[b].3 as int == t.3
                },
        decreases REGION_TILES_COUNT - k,
    {
        let (x, y, z) = crate::idxmap(k);
        proof {
            vstd::arithmetic::mul::lemma_mul_upper_bound(
                cell_noise@[k as int] as int,
                NOISE_SCALE as int,
                n_strata as int,
                (4 * REGION_WIDTH * REGION_HEIGHT + 64) as int,
            );
        }
        let scaled = cell_noise[k] as usize * n_strata / NOISE_SCALE;
        let blob_id = if scaled < n_strata {
            scaled
        } else {
            n_strata - 1
        };
        let c = counts[blob_id];
        proof {
            vstd::arithmetic::mul::lemma_mul_upper_bound(
                c.0 as int,
                REGION_TILES_COUNT as int,
                63,
                63,
            );
        }
        let ghost pre_map = map@;
        map.push(blob_id);
        counts[blob_id] = (c.0 + 1, c.1 + x, c.2 + y, c.3 + z);
        proof {
            assert(map@.drop_last() =~= pre_map);
            assert(map@.last() == blob_id);
            assert forall|bb: int|
                0 <= bb < n_strata implies {
                let t = spec_blob_totals(map@, bb);
                (#[trigger] counts@[bb]).0 as int == t.0 && counts@[bb].1 as int == t.1
                    && counts@[bb].2 as int == t.2 && counts@[bb].3 as int == t.3
            } by {
                let t0 = spec_blob_totals(pre_map, bb);
                if blob_id as int == bb {
                    assert(spec_blob_totals(map@, bb) == (t0.0 + 1, t0.1 + crate::spec_idx_x(
                        k as int,
                    ), t0.2 + crate::spec_idx_y(k as int), t0.3 + crate::spec_idx_z(k as int)));
                } else {
                    assert(spec_blob_totals(map@, bb) == t0);
                }
            }
        }
        k = k + 1;
    }

    // Assign each blob a material by the depth of its centroid, folding
    // each blob's accumulated sums down to the centroid itself.
    let mut material_idx: Vec<usize> = Vec::with_capacity(n_strata);
    let mut b: usize = 0;
    while b < n_strata
        invariant
            counts@.len() == n_strata,
            hm@.len() == REGION_WIDTH * REGION_HEIGHT,
            forall|bb: int|
                0 <= bb < n_strata ==> (#[trigger] counts@[bb]).0 <= REGION_TILES_COUNT
                    && counts@[bb].1 <= counts@[bb].0 * 63 && counts@[bb].2 <= counts@[bb].0 * 63
                    && counts@[bb].3 <= counts@[bb].0 * 63,
            b <= n_strata,
            material_idx@.len() == b,
            crate::raws::layer_indices_ok(raws.materials.materials@, MaterialLayer::Soil, soils@),
            crate::raws::layer_indices_ok(raws.materials.materials@, MaterialLayer::Sand, sands@),
            crate::raws::layer_indices_ok(
                raws.materials.materials@,
                MaterialLayer::Sedimentary,
                sedimentaries@,
            ),
            crate::raws::layer_indices_ok(
                raws.materials.materials@,
                MaterialLayer::Igneous,
                igneouses@,
            ),
            soils@.len() > 0,
            sands@.len() > 0,
            sedimentaries@.len() > 0,
            igneouses@.len() > 0,
            soils@.len() < i32::MAX as usize,
            sands@.len() < i32::MAX as usize,
            sedimentaries@.len() < i32::MAX as usize,
            igneouses@.len() < i32::MAX as usize,
            forall|bb: int|
                0 <= bb < b ==> (#[trigger] material_idx@[bb]) < raws.materials.materials@.len(),
            forall|bb: int|
                0 <= bb < b ==> spec_blob_material_layer_ok(
                    (#[trigger] counts@[bb]),
                    hm@,
                    raws.materials.materials@,
                    material_idx@[bb],
                ),
            forall|bb: int|
                b <= bb < n_strata ==> {
                    let t = spec_blob_totals(map@, bb);
                    (#[trigger] counts@[bb]).0 as int == t.0 && counts@[bb].1 as int == t.1
                        && counts@[bb].2 as int == t.2 && counts@[bb].3 as int == t.3
                },
            forall|bb: int|
                0 <= bb < b ==> {
                    let t = spec_blob_totals(map@, bb);
                    &&& (#[trigger] counts@[bb]).0 as int == t.0
                    &&& if t.0 == 0 {
                        counts@[bb].1 == 0 && counts@[bb].2 == 0 && counts@[bb].3 == 0
                    } else {
                        counts@[bb].1 as int == t.1 / t.0 && counts@[bb].2 as int == t.2 / t.0
                            && counts@[bb].3 as int == t.3 / t.0
                    }
                },
        decreases n_strata - b,
    {
        let c = counts[b];
        proof {
            let t = spec_blob_totals(map@, b as int);
            assert(c.0 as int == t.0 && c.1 as int == t.1 && c.2 as int == t.2 && c.3 as int
                == t.3);
        }
        let picked: usize;
        if c.0 > 0 {
            let cnt = c.0;
            let cex = c.1 / cnt;
            let cey = c.2 / cnt;
            let cz = c.3 / cnt;
            proof {
                vstd::arithmetic::mul::lemma_mul_upper_bound(
                    c.0 as int,
                    REGION_TILES_COUNT as int,
                    63,
                    63,
                );
                vstd::arithmetic::div_mod::lemma_div_is_ordered(
                    c.1 as int,
                    (c.0 * 63) as int,
                    c.0 as int,
                );
                vstd::arithmetic::div_mod::lemma_div_multiples_vanish(63, c.0 as int);
                vstd::arithmetic::div_mod::lemma_div_is_ordered(
                    c.2 as int,
                    (c.0 * 63) as int,
                    c.0 as int,
                );
                vstd::arithmetic::div_mod::lemma_div_is_ordered(
                    c.3 as int,
                    (c.0 * 63) as int,
                    c.0 as int,
                );
                assert(cex < REGION_WIDTH);
                assert(cey < REGION_HEIGHT);
            }
            counts[b] = (cnt, cex, cey, cz);
            proof {
                let t = spec_blob_totals(map@, b as int);
                assert(counts@[b as int].0 as int == t.0);
                assert(counts@[b as int].1 as int == t.1 / t.0);
                assert(counts@[b as int].2 as int == t.2 / t.0);
                assert(counts@[b as int].3 as int == t.3 / t.0);
            }
            let altitude_at_center: usize = hm[(cey * REGION_WIDTH) + cex] as usize
                + REGION_DEPTH / 2;
            let band_roll = roll_dice(rng, 1, 4) as usize;
            if cz + 1 + band_roll > altitude_at_center {
                // Surface band: soil or sand, by the biome's soil ratio.
                let soil_roll = roll_dice(rng, 1, 100) as u32;
                let choice = if soil_roll < biome.soils.soil {
                    random_slice_entry_usize(rng, &soils)
                } else {
                    random_slice_entry_usize(rng, &sands)
                };
                picked = match choice {
                    Some(m) => m,
                    None => {
                        proof {
                            assert(false);
                        }
                        0
                    },
                };
                proof {
                    let mats = raws.materials.materials@;
                    if soils@.contains(picked) {
                        let kk = choose|kk: int| 0 <= kk < soils@.len() && soils@[kk] == picked;
                        assert(mats[picked as int].layer == MaterialLayer::Soil);
                    } else {
                        let kk = choose|kk: int| 0 <= kk < sands@.len() && sands@[kk] == picked;
                        assert(mats[picked as int].layer == MaterialLayer::Sand);
                    }
                    assert(cz + 5 > altitude_at_center);
                    assert(spec_blob_material_layer_ok(counts@[b as int], hm@, mats, picked));
                }
            } else if 2 * cz > altitude_at_center - 10 {
                // Middle band: sedimentary rock.
                let choice = random_slice_entry_usize(rng, &sedimentaries);
                picked = match choice {
                    Some(m) => m,
                    None => {
                        proof {
                            assert(false);
                        }
                        0
                    },
                };
                proof {
                    let mats = raws.materials.materials@;
                    let kk = choose|kk: int|
                        0 <= kk < sedimentaries@.len() && sedimentaries@[kk] == picked;
                    assert(mats[picked as int].layer == MaterialLayer::Sedimentary);
                    assert(cz + 2 <= altitude_at_center);
                    assert(spec_blob_material_layer_ok(counts@[b as int], hm@, mats, picked));
                }
            } else {
                // Deep band: igneous rock.
                let choice = random_slice_entry_usize(rng, &igneouses);
                picked = match choice {
                    Some(m) => m,
                    None => {
                        proof {
                            assert(false);
                        }
                        0
                    },
                };
                proof {
                    let mats = raws.materials.materials@;
                    let kk = choose|kk: int|
                        0 <= kk < igneouses@.len() && igneouses@[kk] == picked;
                    assert(mats[picked as int].layer == MaterialLayer::Igneous);
                    assert(cz + 2 <= altitude_at_center);
                    assert(spec_blob_material_layer_ok(counts@[b as int], hm@, mats, picked));
                }
            }
        } else {
            // Nothing landed in this blob: fall back to igneous.
            let choice = random_slice_entry_usize(rng, &igneouses);
            picked = match choice {
                Some(m) => m,
                None => {
                    proof {
                        assert(false);
                    }
                    0
                },
            };
            proof {
                let mats = raws.materials.materials@;
                let kk = choose|kk: int| 0 <= kk < igneouses@.len() && igneouses@[kk] == picked;
                assert(mats[picked as int].layer == MaterialLayer::Igneous);
                assert(counts@[b as int].0 == 0);
                assert(spec_blob_material_layer_ok(counts@[b as int], hm@, mats, picked));
                let t = spec_blob_totals(map@, b as int);
                assert(t.0 == 0);
                assert(counts@[b as int].1 == 0 && counts@[b as int].2 == 0 && counts@[b as int].3
                    == 0);
            }
        }
        proof {
            assert(picked < raws.materials.materials@.len());
        }
        material_idx.push(picked);
        b = b + 1;
    }

    Strata { map, material_idx, counts }
}

/// The altitude of column `(x, y)`, clamped to leave a margin from the
/// region ceiling.
pub open spec fn spec_column_altitude(hm: Seq<u8>, x: int, y: int) -> int {
    let a = hm[y * (REGION_WIDTH as int) + x] as int;
    if a > REGION_DEPTH - 10 {
        REGION_DEPTH - 1
    } else {
        a
    }
}

/// Whether column `(x, y)` lies on the region boundary.
pub open spec fn spec_region_edge(x: int, y: int) -> bool {
    x == 0 || x == REGION_WIDTH - 1 || y == 0 || y == REGION_HEIGHT - 1
}

/// The layered tile of cell `(x, y, z)`: molten rock at the bottom, a lava
/// band below one-third of the altitude (walled in at the region edges),
/// solid up to the altitude, empty above.
pub open spec fn spec_layer_tile(hm: Seq<u8>, x: int, y: int, z: int) -> RegionTileType {
    let alt = spec_column_altitude(hm, x, y);
    if z == 0 {
        RegionTileType::SemiMoltenRock
    } else if z < alt / 3 {
        if spec_region_edge(x, y) {
            RegionTileType::SemiMoltenRock
        } else {
            RegionTileType::Empty
        }
    } else if z < alt {
        RegionTileType::Solid
    } else {
        RegionTileType::Empty
    }
}

/// The material of cell `(x, y, z)` after layering: magma (material `0`)
/// in the open lava band, the blob's material in the solid band, and the
/// cell's previous material everywhere else.
pub open spec fn spec_layer_material(
    hm: Seq<u8>,
    strata: Strata,
    old_mat: Seq<usize>,
    x: int,
    y: int,
    z: int,
    idx: int,
) -> usize {
    let alt = spec_column_altitude(hm, x, y);
    if z == 0 {
        old_mat[idx]
    } else if z < alt / 3 {
        if spec_region_edge(x, y) {
            old_mat[idx]
        } else {
            0
        }
    } else if z < alt {
        strata.material_idx@[strata.map@[idx] as int]
    } else {
        old_mat[idx]
    }
}

/// Writes the layered tiles of every column of the region: the bottom
/// layer is molten rock, a lava band sits below one-third of the column's
/// altitude, blob materials fill the column up to its altitude, and
/// everything above is left empty for vegetation and structures.
pub fn layer_cake(hm: &Vec<u8>, region: &mut Region, strata: &Strata)
    requires
        hm@.len() == REGION_WIDTH * REGION_HEIGHT,
        old(region).material_idx@.len() == REGION_TILES_COUNT,
        strata.map@.len() == REGION_TILES_COUNT,
        strata.material_idx@.len() > 0,
        forall|i: int|
            0 <= i < REGION_TILES_COUNT ==> (#[trigger] strata.map@[i]) < strata.material_idx@.len(),
    ensures
        final(region).tile_types@.len() == REGION_TILES_COUNT,
        final(region).material_idx@.len() == REGION_TILES_COUNT,
        forall|k: int|
            0 <= k < REGION_TILES_COUNT ==> (#[trigger] final(region).tile_types@[k])
                == spec_layer_tile(
                hm@,
                crate::spec_idx_x(k),
                crate::spec_idx_y(k),
                crate::spec_idx_z(k),
            ),
        forall|k: int|
            0 <= k < REGION_TILES_COUNT ==> (#[trigger] final(region).material_idx@[k])
                == spec_layer_material(
                hm@,
                *strata,
                old(region).material_idx@,
                crate::spec_idx_x(k),
                crate::spec_idx_y(k),
                crate::spec_idx_z(k),
                k,
            ),
{
    let mut tiles: Vec<RegionTileType> = Vec::with_capacity(REGION_TILES_COUNT);
    let mut mats: Vec<usize> = Vec::with_capacity(REGION_TILES_COUNT);
    let mut k: usize = 0;
    while k < REGION_TILES_COUNT
        invariant
            hm@.len() == REGION_WIDTH * REGION_HEIGHT,
            region.material_idx@.len() == REGION_TILES_COUNT,
            region == old(region),
            strata.map@.len() == REGION_TILES_COUNT,
            strata.material_idx@.len() > 0,
            forall|i: int|
                0 <= i < REGION_TILES_COUNT ==> (#[trigger] strata.map@[i])
                    < strata.material_idx@.len(),
            k <= REGION_TILES_COUNT,
            tiles@.len() == k,
            mats@.len() == k,
            forall|j: int|
                0 <= j < k ==> (#[trigger] tiles@[j]) == spec_layer_tile(
                    hm@,
                    crate::spec_idx_x(j),
                    crate::spec_idx_y(j),
                    crate::spec_idx_z(j),
                ),
            forall|j: int|
                0 <= j < k ==> (#[trigger] mats@[j]) == spec_layer_material(
                    hm@,
                    *strata,
                    old(region).material_idx@,
                    crate::spec_idx_x(j),
                    crate::spec_idx_y(j),
                    crate::spec_idx_z(j),
                    j,
                ),
        decreases REGION_TILES_COUNT - k,
    {
        let (x, y, z) = crate::idxmap(k);
        let raw = hm[(y * REGION_WIDTH) + x] as usize;
        let altitude = if raw > REGION_DEPTH - 10 {
            REGION_DEPTH - 1
        } else {
            raw
        };
        let edge = x == 0 || x == REGION_WIDTH - 1 || y == 0 || y == REGION_HEIGHT - 1;

        if z == 0 {
            // Bottom layer is always semi-molten rock.
            tiles.push(RegionTileType::SemiMoltenRock);
            mats.push(region.material_idx[k]);
        } else if z < altitude / 3 {
            // Lava band: walled in at the region edges, magma inside.
            if edge {
                tiles.push(RegionTileType::SemiMoltenRock);
                mats.push(region.material_idx[k]);
            } else {
                tiles.push(RegionTileType::Empty);
                mats.push(0);
            }
        } else if z < altitude {
            // Rock up to the soil boundary, from the blob's material.
            tiles.push(RegionTileType::Solid);
            mats.push(strata.material_idx[strata.map[k]]);
        } else {
            // Left empty for vegetation and structures.
            tiles.push(RegionTileType::Empty);
            mats.push(region.material_idx[k]);
        }
        k = k + 1;
    }
    region.tile_types = tiles;
    region.material_idx = mats;
}

} // verus!
