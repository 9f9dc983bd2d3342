//! Chunk generation: one fixed-size cube of tiles at a time.
//!
//! A chunk is generated from the per-column altitudes of its footprint, a
//! material-noise sample per voxel, the per-layer material lists, and the
//! planet seed. Everything a chunk holds is a function of those inputs
//! alone, so an evicted chunk regenerates bit-identically — which is what
//! makes eviction safe without persistence.
//!
//! Altitude and material noise arrive as plain values: the altitude of a
//! column in tiles, and a noise sample normalised to `0..=NOISE_SCALE`
//! standing for the raw field's `[-1, 1]`.

use crate::raws::StrataMaterials;
use crate::rng::d100_sequence;
use crate::rng::d100_stream;
use crate::CHUNK_SIZE;
use crate::NOISE_SCALE;
use crate::REGION_DEPTH;
use crate::REGION_HEIGHT;
use crate::REGION_TILES_COUNT;
use crate::REGION_WIDTH;
use crate::TILES_PER_CHUNK;
use vstd::prelude::*;

verus! {

/// Which way a ramp tile climbs.
#[derive(Clone, Copy, PartialEq, Eq, Structural, Debug)]
pub enum RampDirection {
    NorthSouth,
    SouthNorth,
    EastWest,
    WestEast,
}

/// Which way a stairs tile connects.
#[derive(Clone, Copy, PartialEq, Eq, Structural, Debug)]
pub enum StairsType {
    Up,
    Down,
    UpDown,
}

/// One tile of the world. A solid tile carries an index into the material
/// catalog, never the material itself.
#[derive(Clone, Copy, PartialEq, Eq, Structural, Debug)]
pub enum TileType {
    Empty,
    SemiMoltenRock,
    Solid { material: usize },
    Ramp { direction: RampDirection },
    Stairs { direction: StairsType },
}

/// Whether a chunk holds tiles at all.
#[derive(Clone, Copy, PartialEq, Eq, Structural, Debug)]
pub enum ChunkType {
    Empty,
    Populated,
}

/// A single-tile terrain edit.
#[derive(Clone, Copy, PartialEq, Eq, Structural, Debug)]
pub enum TileChange {
    SetTileType { result: TileType },
}

/// A terrain edit addressed to one tile of a region.
#[derive(Clone, Copy, PartialEq, Eq, Structural, Debug)]
pub struct PlanetChange {
    pub tile_idx: usize,
    pub change: TileChange,
}

/// A batch of terrain edits addressed to one region, queued by the
/// simulation and drained by the terrain pipeline between build phases.
pub struct MapChangeBatch {
    pub region_id: usize,
    pub changes: Vec<PlanetChange>,
}

impl MapChangeBatch {
    /// An empty batch for the region with id `region_id`.
    pub fn new(region_id: usize) -> (r: MapChangeBatch)
        ensures
            r.region_id == region_id,
            r.changes@.len() == 0,
    {
        MapChangeBatch { region_id, changes: Vec::new() }
    }

    /// Appends one edit to the batch.
    pub fn enqueue_change(&mut self, change: PlanetChange)
        ensures
            final(self).region_id == old(self).region_id,
            final(self).changes@ == old(self).changes@.push(change),
    {
        self.changes.push(change);
    }

    /// Whether edits are still queued: the drain poll of the build loop.
    pub fn changes_requested(&self) -> (r: bool)
        ensures
            r == (self.changes@.len() > 0),
    {
        self.changes.len() > 0
    }
}

/// One fixed-size cube of tiles, anchored at `base` within the region of
/// planetary grid cell `world`. An `Empty` chunk holds no tile or reveal
/// storage.
#[derive(Debug)]
pub struct Chunk {
    pub world: (usize, usize),
    pub base: (usize, usize, usize),
    pub chunk_type: ChunkType,
    pub tiles: Option<Vec<TileType>>,
    pub revealed: Option<Vec<bool>>,
}

/// The material picked for a normalised noise sample: the sample selects a
/// slot of the list proportionally, clamped to the last slot.
pub open spec fn spec_pick_material(materials: Seq<usize>, noise: u16) -> usize {
    let slot = (noise * materials.len()) / (NOISE_SCALE as int);
    if slot < materials.len() {
        materials[slot]
    } else {
        materials[materials.len() - 1]
    }
}

/// Picks a material from a per-layer list by a normalised noise sample.
pub fn pick_material(materials: &Vec<usize>, noise: u16) -> (r: usize)
    requires
        materials@.len() > 0,
        noise * materials@.len() <= usize::MAX,
    ensures
        r == spec_pick_material(materials@, noise),
{
    let slot = (noise as usize * materials.len()) / NOISE_SCALE;
    if slot < materials.len() {
        materials[slot]
    } else {
        materials[materials.len() - 1]
    }
}

impl Chunk {
    /// Tile and reveal storage, where present, covers the whole chunk.
    pub open spec fn wf(self) -> bool {
        &&& (self.tiles matches Some(t) ==> t@.len() == TILES_PER_CHUNK)
        &&& (self.revealed matches Some(rv) ==> rv@.len() == TILES_PER_CHUNK)
    }

    /// An empty chunk for the region of grid cell `(tile_x, tile_y)`,
    /// anchored at `(region_x, region_y, region_z)`: no tile storage.
    pub fn empty(
        tile_x: usize,
        tile_y: usize,
        region_x: usize,
        region_y: usize,
        region_z: usize,
    ) -> (r: Chunk)
        ensures
            r.world == (tile_x, tile_y),
            r.base == (region_x, region_y, region_z),
            r.chunk_type == ChunkType::Empty,
            r.tiles is None,
            r.revealed is None,
            r.wf(),
    {
        Chunk {
            world: (tile_x, tile_y),
            base: (region_x, region_y, region_z),
            chunk_type: ChunkType::Empty,
            tiles: None,
            revealed: None,
        }
    }
}

/// The seed of a chunk's roll stream: the planet seed advanced by the sum
/// of the chunk's coordinates, wrapping on overflow.
pub open spec fn spec_chunk_seed(
    planet_seed: u64,
    tile_x: int,
    tile_y: int,
    region_x: int,
    region_y: int,
    region_z: int,
) -> u64 {
    planet_seed.wrapping_add((tile_x + tile_y + region_x + region_y + region_z) as u64)
}

/// Whether the chunk's whole z-range lies above every column of its
/// footprint — such a chunk is all air and gets no tile storage.
pub open spec fn spec_chunk_all_air(region_z: int, altitudes: Seq<u32>) -> bool {
    forall|i: int| 0 <= i < altitudes.len() ==> region_z > (#[trigger] altitudes[i]) as int
}

/// The column altitude that governs chunk tile `k`: the altitude of the
/// footprint cell below it.
pub open spec fn spec_tile_altitude(altitudes: Seq<u32>, k: int) -> int {
    let cx = k % (CHUNK_SIZE as int);
    let cy = (k / (CHUNK_SIZE as int)) % (CHUNK_SIZE as int);
    altitudes[cy * (CHUNK_SIZE as int) + cx] as int
}

/// The tile generation rule for chunk tile `k`, banded by depth below the
/// column altitude: molten rock at the world floor, a lava gap above it,
/// igneous rock in the deep band, an even igneous/sedimentary mix in the
/// middle band, and a biome-weighted soil-or-sand band at the surface.
pub open spec fn spec_chunk_tile(
    k: int,
    region_z: int,
    altitudes: Seq<u32>,
    cell_noise: Seq<u16>,
    rolls: Seq<u32>,
    strata: StrataMaterials,
    soil_pct: u32,
) -> TileType {
    let cz = k / ((CHUNK_SIZE * CHUNK_SIZE) as int);
    let alt = spec_tile_altitude(altitudes, k);
    let rz = region_z + cz;
    if rz >= alt {
        TileType::Empty
    } else if rz < 1 {
        TileType::SemiMoltenRock
    } else if rz < alt / 4 {
        TileType::Empty
    } else if rz < alt / 2 {
        TileType::Solid { material: spec_pick_material(strata.igneous@, cell_noise[k]) }
    } else if rz + 4 < alt {
        if rolls[2 * k] <= 50 {
            TileType::Solid { material: spec_pick_material(strata.igneous@, cell_noise[k]) }
        } else {
            TileType::Solid { material: spec_pick_material(strata.sedimentary@, cell_noise[k]) }
        }
    } else {
        if rolls[2 * k + 1] < soil_pct {
            TileType::Solid { material: spec_pick_material(strata.soils@, cell_noise[k]) }
        } else {
            TileType::Solid { material: spec_pick_material(strata.sand@, cell_noise[k]) }
        }
    }
}

/// Whether chunk tile `k` starts out revealed: within two tiles of the
/// column altitude, or anywhere above it.
pub open spec fn spec_chunk_revealed(k: int, region_z: int, altitudes: Seq<u32>) -> bool {
    let cz = k / ((CHUNK_SIZE * CHUNK_SIZE) as int);
    region_z + cz + 2 > spec_tile_altitude(altitudes, k)
}

/// The inputs `Chunk::generate` draws a chunk from, in the shape it
/// requires them.
pub open spec fn chunk_gen_inputs_ok(
    tile_x: int,
    tile_y: int,
    region_x: int,
    region_y: int,
    region_z: int,
    strata: StrataMaterials,
    altitudes: Seq<u32>,
    cell_noise: Seq<u16>,
) -> bool {
    &&& tile_x < crate::WORLD_WIDTH
    &&& tile_y < crate::WORLD_WIDTH
    &&& region_x + CHUNK_SIZE <= REGION_WIDTH
    &&& region_y + CHUNK_SIZE <= REGION_HEIGHT
    &&& region_z + CHUNK_SIZE <= REGION_DEPTH
    &&& altitudes.len() == CHUNK_SIZE * CHUNK_SIZE
    &&& cell_noise.len() == TILES_PER_CHUNK
    &&& forall|i: int| 0 <= i < cell_noise.len() ==> (#[trigger] cell_noise[i]) <= NOISE_SCALE
    &&& 0 < strata.igneous@.len() && NOISE_SCALE * strata.igneous@.len() <= usize::MAX
    &&& 0 < strata.sedimentary@.len() && NOISE_SCALE * strata.sedimentary@.len() <= usize::MAX
    &&& 0 < strata.soils@.len() && NOISE_SCALE * strata.soils@.len() <= usize::MAX
    &&& 0 < strata.sand@.len() && NOISE_SCALE * strata.sand@.len() <= usize::MAX
}

/// Everything `Chunk::generate` promises of its result: the chunk is a
/// function of the seed, the coordinates, the altitudes, the noise samples
/// and the strata lists alone.
pub open spec fn chunk_gen_post(
    c: Chunk,
    tile_x: int,
    tile_y: int,
    region_x: int,
    region_y: int,
    region_z: int,
    planet_seed: u64,
    soil_pct: u32,
    strata: StrataMaterials,
    altitudes: Seq<u32>,
    cell_noise: Seq<u16>,
) -> bool {
    let seed = spec_chunk_seed(planet_seed, tile_x, tile_y, region_x, region_y, region_z);
    let rolls = d100_stream(seed, (2 * TILES_PER_CHUNK) as nat);
    &&& c.world == (tile_x as usize, tile_y as usize)
    &&& c.base == (region_x as usize, region_y as usize, region_z as usize)
    &&& if spec_chunk_all_air(region_z, altitudes) {
        c.chunk_type == ChunkType::Empty && c.tiles is None && c.revealed is None
    } else {
        &&& c.chunk_type == ChunkType::Populated
        &&& c.tiles matches Some(t) && t@.len() == TILES_PER_CHUNK && (forall|k: int|
            0 <= k < TILES_PER_CHUNK ==> #[trigger] t@[k] == spec_chunk_tile(
                k,
                region_z,
                altitudes,
                cell_noise,
                rolls,
                strata,
                soil_pct,
            ))
        &&& c.revealed matches Some(rv) && rv@.len() == TILES_PER_CHUNK && (forall|k: int|
            0 <= k < TILES_PER_CHUNK ==> #[trigger] rv@[k] == spec_chunk_revealed(
                k,
                region_z,
                altitudes,
            ))
    }
}

impl Chunk {
    /// Generates the chunk of the region at grid cell `(tile_x, tile_y)`
    /// anchored at `(region_x, region_y, region_z)`, from the column
    /// altitudes of its footprint, one material-noise sample per voxel, the
    /// per-layer material lists, the owning biome's soil percentage, and
    /// the planet seed. A chunk wholly above its columns is `Empty` and
    /// allocates nothing.
    pub fn generate(
        tile_x: usize,
        tile_y: usize,
        region_x: usize,
        region_y: usize,
        region_z: usize,
        planet_seed: u64,
        soil_pct: u32,
        strata: &StrataMaterials,
        altitudes: &Vec<u32>,
        cell_noise: &Vec<u16>,
    ) -> (r: Chunk)
        requires
            chunk_gen_inputs_ok(
                tile_x as int,
                tile_y as int,
                region_x as int,
                region_y as int,
                region_z as int,
                *strata,
                altitudes@,
                cell_noise@,
            ),
        ensures
            chunk_gen_post(
                r,
                tile_x as int,
                tile_y as int,
                region_x as int,
                region_y as int,
                region_z as int,
                planet_seed,
                soil_pct,
                *strata,
                altitudes@,
                cell_noise@,
            ),
            r.wf(),
    {
        let mut chunk = Chunk::empty(tile_x, tile_y, region_x, region_y, region_z);

        let mut max_altitude: u32 = 0;
        let mut i: usize = 0;
        while i < altitudes.len()
            invariant
                i <= altitudes@.len(),
                forall|j: int| 0 <= j < i ==> (#[trigger] altitudes@[j]) <= max_altitude,
                max_altitude == 0 || exists|j: int| 0 <= j < i && altitudes@[j] == max_altitude,
            decreases altitudes@.len() - i,
        {
            if altitudes[i] > max_altitude {
                max_altitude = altitudes[i];
            }
            i = i + 1;
        }

        if region_z > max_altitude as usize {
            proof {
                assert(spec_chunk_all_air(region_z as int, altitudes@));
            }
            chunk.chunk_type = ChunkType::Empty;
        } else {
            proof {
                assert(!spec_chunk_all_air(region_z as int, altitudes@));
            }
            chunk.chunk_type = ChunkType::Populated;
            let seed = planet_seed.wrapping_add(
                (tile_x + tile_y + region_x + region_y + region_z) as u64,
            );
            let rolls = d100_sequence(seed, 2 * TILES_PER_CHUNK);
            let ghost rolls_spec = d100_stream(seed, (2 * TILES_PER_CHUNK) as nat);
            let mut tiles: Vec<TileType> = Vec::with_capacity(TILES_PER_CHUNK);
            let mut revealed: Vec<bool> = Vec::with_capacity(TILES_PER_CHUNK);
            let mut k: usize = 0;
            while k < TILES_PER_CHUNK
                invariant
                    k <= TILES_PER_CHUNK,
                    chunk_gen_inputs_ok(
                        tile_x as int,
                        tile_y as int,
                        region_x as int,
                        region_y as int,
                        region_z as int,
                        *strata,
                        altitudes@,
                        cell_noise@,
                    ),
                    rolls@ == rolls_spec,
                    rolls@.len() == 2 * TILES_PER_CHUNK,
                    tiles@.len() == k,
                    revealed@.len() == k,
                    forall|j: int|
                        0 <= j < k ==> #[trigger] tiles@[j] == spec_chunk_tile(
                            j,
                            region_z as int,
                            altitudes@,
                            cell_noise@,
                            rolls_spec,
                            *strata,
                            soil_pct,
                        ),
                    forall|j: int|
                        0 <= j < k ==> #[trigger] revealed@[j] == spec_chunk_revealed(
                            j,
                            region_z as int,
                            altitudes@,
                        ),
                decreases TILES_PER_CHUNK - k,
            {
                let cx = k % CHUNK_SIZE;
                let cy = (k / CHUNK_SIZE) % CHUNK_SIZE;
                let cz = k / (CHUNK_SIZE * CHUNK_SIZE);
                let altitude = altitudes[cy * CHUNK_SIZE + cx] as usize;
                let rz = region_z + cz;

                proof {
                    let n = cell_noise@[k as int] as int;
                    vstd::arithmetic::mul::lemma_mul_upper_bound(
                        n,
                        NOISE_SCALE as int,
                        strata.igneous@.len() as int,
                        strata.igneous@.len() as int,
                    );
                    vstd::arithmetic::mul::lemma_mul_upper_bound(
                        n,
                        NOISE_SCALE as int,
                        strata.sedimentary@.len() as int,
                        strata.sedimentary@.len() as int,
                    );
                    vstd::arithmetic::mul::lemma_mul_upper_bound(
                        n,
                        NOISE_SCALE as int,
                        strata.soils@.len() as int,
                        strata.soils@.len() as int,
                    );
                    vstd::arithmetic::mul::lemma_mul_upper_bound(
                        n,
                        NOISE_SCALE as int,
                        strata.sand@.len() as int,
                        strata.sand@.len() as int,
                    );
                }

                revealed.push(rz + 2 > altitude);

                let tile = if rz >= altitude {
                    TileType::Empty
                } else if rz < 1 {
                    TileType::SemiMoltenRock
                } else if rz < altitude / 4 {
                    TileType::Empty
                } else if rz < altitude / 2 {
                    TileType::Solid { material: pick_material(&strata.igneous, cell_noise[k]) }
                } else if rz + 4 < altitude {
                    if rolls[2 * k] <= 50 {
                        TileType::Solid { material: pick_material(&strata.igneous, cell_noise[k]) }
                    } else {
                        TileType::Solid {
                            material: pick_material(&strata.sedimentary, cell_noise[k]),
                        }
                    }
                } else {
                    if rolls[2 * k + 1] < soil_pct {
                        TileType::Solid { material: pick_material(&strata.soils, cell_noise[k]) }
                    } else {
                        TileType::Solid { material: pick_material(&strata.sand, cell_noise[k]) }
                    }
                };
                tiles.push(tile);
                k = k + 1;
            }
            chunk.tiles = Some(tiles);
            chunk.revealed = Some(revealed);
        }

        chunk
    }

    /// The tile at region tile index `map_idx`. A chunk without tile
    /// storage is all `Empty` whatever the index; one with storage must be
    /// addressed inside its own cube.
    pub fn get_tile_type(&self, map_idx: usize) -> (r: TileType)
        requires
            self.wf(),
            self.tiles is Some ==> map_idx < REGION_TILES_COUNT && ({
                let x = crate::spec_idx_x(map_idx as int);
                let y = crate::spec_idx_y(map_idx as int);
                let z = crate::spec_idx_z(map_idx as int);
                &&& self.base.0 <= x < self.base.0 + CHUNK_SIZE
                &&& self.base.1 <= y < self.base.1 + CHUNK_SIZE
                &&& self.base.2 <= z < self.base.2 + CHUNK_SIZE
            }),
        ensures
            match self.tiles {
                None => r == TileType::Empty,
                Some(t) => {
                    let x = crate::spec_idx_x(map_idx as int);
                    let y = crate::spec_idx_y(map_idx as int);
                    let z = crate::spec_idx_z(map_idx as int);
                    r == t@[crate::spec_chunk_idx(
                        x - self.base.0,
                        y - self.base.1,
                        z - self.base.2,
                    )]
                },
            },
    {
        if let Some(tiles) = &self.tiles {
            let (x, y, z) = crate::idxmap(map_idx);
            let cx = x - self.base.0;
            let cy = y - self.base.1;
            let cz = z - self.base.2;
            let chunk_id = crate::chunk_idx(cx, cy, cz);
            tiles[chunk_id]
        } else {
            TileType::Empty
        }
    }

    /// Applies one terrain edit to this chunk, allocating tile storage
    /// first when the chunk had none. Exactly the addressed tile changes.
    pub fn apply_change(&mut self, change: PlanetChange)
        requires
            old(self).wf(),
            change.tile_idx < REGION_TILES_COUNT,
            ({
                let x = crate::spec_idx_x(change.tile_idx as int);
                let y = crate::spec_idx_y(change.tile_idx as int);
                let z = crate::spec_idx_z(change.tile_idx as int);
                &&& old(self).base.0 <= x < old(self).base.0 + CHUNK_SIZE
                &&& old(self).base.1 <= y < old(self).base.1 + CHUNK_SIZE
                &&& old(self).base.2 <= z < old(self).base.2 + CHUNK_SIZE
            }),
        ensures
            final(self).wf(),
            final(self).world == old(self).world,
            final(self).base == old(self).base,
            final(self).chunk_type == old(self).chunk_type,
            final(self).revealed == old(self).revealed,
            ({
                let x = crate::spec_idx_x(change.tile_idx as int);
                let y = crate::spec_idx_y(change.tile_idx as int);
                let z = crate::spec_idx_z(change.tile_idx as int);
                let cid = crate::spec_chunk_idx(
                    x - old(self).base.0,
                    y - old(self).base.1,
                    z - old(self).base.2,
                );
                let before = match old(self).tiles {
                    Some(t) => t@,
                    None => Seq::new(TILES_PER_CHUNK as nat, |i: int| TileType::Empty),
                };
                match change.change {
                    TileChange::SetTileType { result } => final(self).tiles matches Some(t) && t@
                        =~= before.update(cid, result),
                }
            }),
    {
        if self.tiles.is_none() {
            self.tiles = Some(vec![TileType::Empty; TILES_PER_CHUNK]);
        }

        let (x, y, z) = crate::idxmap(change.tile_idx);
        let cx = x - self.base.0;
        let cy = y - self.base.1;
        let cz = z - self.base.2;
        let chunk_id = crate::chunk_idx(cx, cy, cz);

        let mut t = self.tiles.take().unwrap();
        match change.change {
            TileChange::SetTileType { result } => {
                t[chunk_id] = result;
            },
        }
        self.tiles = Some(t);
    }
}

/// Chunk generation is deterministic: two chunks generated from one seed
/// and one set of inputs agree on every field, tile for tile.
pub proof fn lemma_generate_deterministic(
    c1: Chunk,
    c2: Chunk,
    tile_x: int,
    tile_y: int,
    region_x: int,
    region_y: int,
    region_z: int,
    planet_seed: u64,
    soil_pct: u32,
    strata: StrataMaterials,
    altitudes: Seq<u32>,
    cell_noise: Seq<u16>,
)
    requires
        chunk_gen_post(
            c1,
            tile_x,
            tile_y,
            region_x,
            region_y,
            region_z,
            planet_seed,
            soil_pct,
            strata,
            altitudes,
            cell_noise,
        ),
        chunk_gen_post(
            c2,
            tile_x,
            tile_y,
            region_x,
            region_y,
            region_z,
            planet_seed,
            soil_pct,
            strata,
            altitudes,
            cell_noise,
        ),
    ensures
        c1.world == c2.world,
        c1.base == c2.base,
        c1.chunk_type == c2.chunk_type,
        c1.tiles is Some <==> c2.tiles is Some,
        c1.tiles matches Some(t1) ==> c2.tiles matches Some(t2) && t1@ == t2@,
        c1.revealed matches Some(r1) ==> c2.revealed matches Some(r2) && r1@ == r2@,
{
    if !spec_chunk_all_air(region_z, altitudes) {
        let t1 = c1.tiles->0;
        let t2 = c2.tiles->0;
        assert(t1@ =~= t2@);
        let r1 = c1.revealed->0;
        let r2 = c2.revealed->0;
        assert(r1@ =~= r2@);
    }
}

} // verus!
