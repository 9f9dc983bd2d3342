//! Voxel terrain streaming and procedural generation.
//!
//! The library turns a sparse planetary heightmap into a locally dense,
//! renderable 3D tile grid: noise-driven strata layering, per-chunk tile
//! generation, a camera-driven residency store for region chunks, a greedy
//! mesher that compresses solid tiles into few rectangular primitives, and
//! the progress state machine for the one-time build of a freshly entered
//! region.

use vstd::prelude::*;

verus! {

/// Width (and height) of the planetary region grid.
pub const WORLD_WIDTH: usize = 180;

/// Tiles along the x axis of one region.
pub const REGION_WIDTH: usize = 64;

/// Tiles along the y axis of one region.
pub const REGION_HEIGHT: usize = 64;

/// Tiles along the z axis of one region.
pub const REGION_DEPTH: usize = 64;

/// Tiles along each axis of one cubic chunk.
pub const CHUNK_SIZE: usize = 16;

/// Number of tiles in one chunk.
pub const TILES_PER_CHUNK: usize = CHUNK_SIZE * CHUNK_SIZE * CHUNK_SIZE;

/// Number of tiles in one region volume.
pub const REGION_TILES_COUNT: usize = REGION_WIDTH * REGION_HEIGHT * REGION_DEPTH;

/// Chunks along each axis of one region.
pub const CHUNKS_PER_AXIS: usize = REGION_WIDTH / CHUNK_SIZE;

/// Number of chunks in one region.
pub const CHUNKS_PER_REGION: usize = CHUNKS_PER_AXIS * CHUNKS_PER_AXIS * CHUNKS_PER_AXIS;

/// Resolution of a normalised noise sample: `0` stands for raw noise `-1`,
/// `NOISE_SCALE` for raw noise `1`.
pub const NOISE_SCALE: usize = 1024;

/// Region id of the region grid cell at `(x, y)`.
pub open spec fn spec_planet_idx(x: int, y: int) -> int {
    y * WORLD_WIDTH + x
}

/// Flat index of the tile at `(x, y, z)` inside one region volume.
pub open spec fn spec_mapidx(x: int, y: int, z: int) -> int {
    z * (REGION_HEIGHT * REGION_WIDTH) + y * REGION_WIDTH + x
}

/// Flat index of the tile at `(x, y, z)` inside one chunk.
pub open spec fn spec_chunk_idx(x: int, y: int, z: int) -> int {
    z * (CHUNK_SIZE * CHUNK_SIZE) + y * CHUNK_SIZE + x
}

/// Region id of the region grid cell at `(x, y)`.
pub fn planet_idx(x: usize, y: usize) -> (r: usize)
    requires
        x < WORLD_WIDTH,
        y < WORLD_WIDTH,
    ensures
        r == spec_planet_idx(x as int, y as int),
        r < WORLD_WIDTH * WORLD_WIDTH,
{
    y * WORLD_WIDTH + x
}

/// Flat index of the tile at `(x, y, z)` inside one region volume.
pub fn mapidx(x: usize, y: usize, z: usize) -> (r: usize)
    requires
        x < REGION_WIDTH,
        y < REGION_HEIGHT,
        z < REGION_DEPTH,
    ensures
        r == spec_mapidx(x as int, y as int, z as int),
        r < REGION_TILES_COUNT,
{
    z * (REGION_HEIGHT * REGION_WIDTH) + y * REGION_WIDTH + x
}

/// Flat index of the tile at `(x, y, z)` inside one chunk.
pub fn chunk_idx(x: usize, y: usize, z: usize) -> (r: usize)
    requires
        x < CHUNK_SIZE,
        y < CHUNK_SIZE,
        z < CHUNK_SIZE,
    ensures
        r == spec_chunk_idx(x as int, y as int, z as int),
        r < TILES_PER_CHUNK,
{
    z * (CHUNK_SIZE * CHUNK_SIZE) + y * CHUNK_SIZE + x
}

/// The `(x, y)` grid cell of a region id.
pub fn planet_idxmap(idx: usize) -> (r: (usize, usize))
    requires
        idx < WORLD_WIDTH * WORLD_WIDTH,
    ensures
        r.0 < WORLD_WIDTH,
        r.1 < WORLD_WIDTH,
        idx == spec_planet_idx(r.0 as int, r.1 as int),
{
    let x = idx % WORLD_WIDTH;
    let y = idx / WORLD_WIDTH;
    proof {
        lemma_linear_split(idx as int, WORLD_WIDTH as int);
    }
    (x, y)
}

/// The x tile coordinate of a flat region tile index.
pub open spec fn spec_idx_x(idx: int) -> int {
    (idx % ((REGION_HEIGHT * REGION_WIDTH) as int)) % (REGION_WIDTH as int)
}

/// The y tile coordinate of a flat region tile index.
pub open spec fn spec_idx_y(idx: int) -> int {
    (idx % ((REGION_HEIGHT * REGION_WIDTH) as int)) / (REGION_WIDTH as int)
}

/// The z tile coordinate of a flat region tile index.
pub open spec fn spec_idx_z(idx: int) -> int {
    idx / ((REGION_HEIGHT * REGION_WIDTH) as int)
}

/// The `(x, y, z)` tile coordinates of a flat region tile index.
pub fn idxmap(idx: usize) -> (r: (usize, usize, usize))
    requires
        idx < REGION_TILES_COUNT,
    ensures
        r.0 < REGION_WIDTH,
        r.1 < REGION_HEIGHT,
        r.2 < REGION_DEPTH,
        idx == spec_mapidx(r.0 as int, r.1 as int, r.2 as int),
        r.0 == spec_idx_x(idx as int),
        r.1 == spec_idx_y(idx as int),
        r.2 == spec_idx_z(idx as int),
{
    let z = idx / (REGION_HEIGHT * REGION_WIDTH);
    let rem = idx % (REGION_HEIGHT * REGION_WIDTH);
    let y = rem / REGION_WIDTH;
    let x = rem % REGION_WIDTH;
    proof {
        lemma_linear_split(idx as int, (REGION_HEIGHT * REGION_WIDTH) as int);
        lemma_linear_split(rem as int, REGION_WIDTH as int);
    }
    (x, y, z)
}

/// The `(x, y, z)` tile coordinates of a flat chunk tile index.
pub fn chunk_idxmap(idx: usize) -> (r: (usize, usize, usize))
    requires
        idx < TILES_PER_CHUNK,
    ensures
        r.0 < CHUNK_SIZE,
        r.1 < CHUNK_SIZE,
        r.2 < CHUNK_SIZE,
        idx == spec_chunk_idx(r.0 as int, r.1 as int, r.2 as int),
{
    let z = idx / (CHUNK_SIZE * CHUNK_SIZE);
    let rem = idx % (CHUNK_SIZE * CHUNK_SIZE);
    let y = rem / CHUNK_SIZE;
    let x = rem % CHUNK_SIZE;
    proof {
        lemma_linear_split(idx as int, (CHUNK_SIZE * CHUNK_SIZE) as int);
        lemma_linear_split(rem as int, CHUNK_SIZE as int);
    }
    (x, y, z)
}

/// Any value splits uniquely as `m * (v / m) + v % m`.
proof fn lemma_linear_split(v: int, m: int)
    requires
        0 <= v,
        0 < m,
    ensures
        v == m * (v / m) + v % m,
        0 <= v % m < m,
        0 <= v / m,
{
    vstd::arithmetic::div_mod::lemma_fundamental_div_mod(v, m);
    vstd::arithmetic::div_mod::lemma_mod_bound(v, m);
    vstd::arithmetic::div_mod::lemma_div_is_ordered(0, v, m);
}

/// A region id determines its grid cell: recovering `(x, y)` from
/// `spec_planet_idx(x, y)` gives back `x` and `y`.
pub proof fn lemma_planet_idx_bijective(x: int, y: int)
    requires
        0 <= x < WORLD_WIDTH,
        0 <= y < WORLD_WIDTH,
    ensures
        spec_planet_idx(x, y) % (WORLD_WIDTH as int) == x,
        spec_planet_idx(x, y) / (WORLD_WIDTH as int) == y,
{
    let w = WORLD_WIDTH as int;
    vstd::arithmetic::div_mod::lemma_fundamental_div_mod_converse(y * w + x, w, y, x);
}

} // verus!

pub mod calendar;
pub mod chunk_store;
pub mod chunker;
pub mod greedy;
pub mod position;
pub mod program;
pub mod raws;
pub mod region_builder;
pub mod rng;
pub mod strata;
