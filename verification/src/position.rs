//! Locations on the planetary grid and inside a region.

use crate::spec_mapidx;
use crate::spec_planet_idx;
use crate::REGION_DEPTH;
use crate::REGION_HEIGHT;
use crate::REGION_TILES_COUNT;
use crate::REGION_WIDTH;
use crate::WORLD_WIDTH;
use vstd::prelude::*;

verus! {

/// One cell of the coarse planetary grid.
#[derive(Clone, Copy, PartialEq, Eq, Structural, Debug)]
pub struct PlanetLocation {
    pub x: usize,
    pub y: usize,
}

impl PlanetLocation {
    /// Whether the location lies on the planetary grid.
    pub open spec fn on_grid(self) -> bool {
        self.x < WORLD_WIDTH && self.y < WORLD_WIDTH
    }

    /// The region id of this grid cell.
    pub fn to_region_index(&self) -> (r: usize)
        requires
            self.on_grid(),
        ensures
            r == spec_planet_idx(self.x as int, self.y as int),
    {
        crate::planet_idx(self.x, self.y)
    }
}

/// Represents a location in the world: a region and tile coordinates
/// within it.
pub struct Position {
    pub region: PlanetLocation,
    pub x: usize,
    pub y: usize,
    pub z: usize,
}

impl Position {
    /// Create with a specific region identifier and tile coordinates.
    pub fn new(region: PlanetLocation, x: usize, y: usize, z: usize) -> (r: Position)
        ensures
            r.region == region,
            r.x == x,
            r.y == y,
            r.z == z,
    {
        Position { region, x, y, z }
    }

    /// Whether the tile coordinates lie inside one region volume.
    pub open spec fn in_region(self) -> bool {
        self.x < REGION_WIDTH && self.y < REGION_HEIGHT && self.z < REGION_DEPTH
    }

    /// Convert to a flat region tile index.
    pub fn to_tile_index(&self) -> (r: usize)
        requires
            self.in_region(),
        ensures
            r == spec_mapidx(self.x as int, self.y as int, self.z as int),
            r < REGION_TILES_COUNT,
    {
        (self.z * REGION_HEIGHT * REGION_WIDTH) + (self.y * REGION_WIDTH) + self.x
    }
}

} // verus!
