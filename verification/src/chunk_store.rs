//! Residency and lifecycle of region chunks relative to the camera.
//!
//! The store owns one `RegionChunk` per tracked planetary region. Every
//! frame it is told where the camera is: the camera's region and its eight
//! neighbours (clamped at the world edge) must be resident, regions flagged
//! `required` must stay resident wherever the camera is, and every other
//! region is dropped on the spot. Re-entering a dropped region regenerates
//! it, which is safe because generation is deterministic.

use crate::raws::Raws;
use crate::raws::StrataMaterials;
use crate::spec_planet_idx;
use crate::CHUNKS_PER_AXIS;
use crate::CHUNKS_PER_REGION;
use crate::CHUNK_SIZE;
use crate::WORLD_WIDTH;
use vstd::prelude::*;
use vstd::seq_lib::*;

verus! {

/// One cell of the sparse planetary heightmap: the biome it belongs to and
/// its surface height.
#[derive(Clone, Copy, PartialEq, Eq, Structural, Debug)]
pub struct Landblock {
    pub biome_idx: usize,
    pub height: u32,
}

/// The planet the store generates terrain for: the world seed and the
/// per-region landblocks.
#[derive(Clone)]
pub struct Planet {
    pub rng_seed: u64,
    pub landblocks: Vec<Landblock>,
}

/// The camera, in region tile coordinates.
#[derive(Clone, Copy, PartialEq, Eq, Structural, Debug)]
pub struct GameCamera {
    pub tile_x: usize,
    pub tile_y: usize,
}

impl GameCamera {
    /// Whether the camera sits on the planetary grid.
    pub open spec fn on_grid(self) -> bool {
        self.tile_x < WORLD_WIDTH && self.tile_y < WORLD_WIDTH
    }
}

/// Load state of one chunk of a resident region.
#[derive(Clone, Copy, PartialEq, Eq, Structural, Debug)]
pub enum ChunkStatus {
    NotLoaded,
    Loading,
    Loaded,
    Expired,
}

/// One chunk slot of a resident region: whether the chunk must stay
/// resident, its load state, and its base offset within the region.
#[derive(Clone, Copy, Debug)]
pub struct ChunkSlot {
    pub required: bool,
    pub status: ChunkStatus,
    pub base: (usize, usize, usize),
}

/// The base offset of chunk slot `i` within its region.
pub open spec fn spec_chunk_base(i: int) -> (int, int, int) {
    (
        (i % (CHUNKS_PER_AXIS as int)) * CHUNK_SIZE,
        ((i / (CHUNKS_PER_AXIS as int)) % (CHUNKS_PER_AXIS as int)) * CHUNK_SIZE,
        (i / ((CHUNKS_PER_AXIS * CHUNKS_PER_AXIS) as int)) * CHUNK_SIZE,
    )
}

/// A slot as a freshly created region holds it: not required, not loaded,
/// anchored at its base offset.
pub open spec fn fresh_slot(s: ChunkSlot, i: int) -> bool {
    &&& !s.required
    &&& s.status == ChunkStatus::NotLoaded
    &&& (s.base.0 as int, s.base.1 as int, s.base.2 as int) == spec_chunk_base(i)
}

/// A slot after the camera pass: queued for generation when it was not
/// loaded, allowed to regenerate when it had expired, untouched otherwise.
pub open spec fn slot_activated(s: ChunkSlot) -> ChunkSlot {
    match s.status {
        ChunkStatus::NotLoaded => ChunkSlot { status: ChunkStatus::Loading, ..s },
        ChunkStatus::Expired => ChunkSlot { status: ChunkStatus::NotLoaded, ..s },
        _ => s,
    }
}

/// A slot after its region is marked playable: pinned resident, and allowed
/// to reload when it had expired.
pub open spec fn slot_required(s: ChunkSlot) -> ChunkSlot {
    ChunkSlot {
        required: true,
        status: if s.status == ChunkStatus::Expired {
            ChunkStatus::NotLoaded
        } else {
            s.status
        },
        base: s.base,
    }
}

/// The unit of residency: one planetary region and its chunk slots.
pub struct RegionChunk {
    pub tile_x: usize,
    pub tile_y: usize,
    pub required: bool,
    pub chunks: Vec<ChunkSlot>,
}

/// A freshly created region for grid cell `(tile_x, tile_y)`: not required,
/// with one fresh slot per chunk.
pub open spec fn rc_fresh(rc: RegionChunk, tile_x: usize, tile_y: usize) -> bool {
    &&& rc.tile_x == tile_x
    &&& rc.tile_y == tile_y
    &&& !rc.required
    &&& rc.chunks@.len() == CHUNKS_PER_REGION
    &&& forall|i: int| 0 <= i < CHUNKS_PER_REGION ==> fresh_slot(#[trigger] rc.chunks@[i], i)
}

/// `post` is `pre` with the whole region pinned resident.
pub open spec fn rc_marked_required(pre: RegionChunk, post: RegionChunk) -> bool {
    &&& post.tile_x == pre.tile_x
    &&& post.tile_y == pre.tile_y
    &&& post.required
    &&& post.chunks@.len() == pre.chunks@.len()
    &&& forall|i: int|
        0 <= i < pre.chunks@.len() ==> #[trigger] post.chunks@[i] == slot_required(pre.chunks@[i])
}

/// `post` is `pre` after the camera pass over its chunk slots.
pub open spec fn rc_activated(pre: RegionChunk, post: RegionChunk) -> bool {
    &&& post.tile_x == pre.tile_x
    &&& post.tile_y == pre.tile_y
    &&& post.required == pre.required
    &&& post.chunks@.len() == pre.chunks@.len()
    &&& forall|i: int|
        0 <= i < pre.chunks@.len() ==> #[trigger] post.chunks@[i] == slot_activated(pre.chunks@[i])
}

impl RegionChunk {
    /// A new, untracked region for grid cell `(tile_x, tile_y)`.
    pub fn new(tile_x: usize, tile_y: usize) -> (r: RegionChunk)
        ensures
            rc_fresh(r, tile_x, tile_y),
    {
        let mut chunks: Vec<ChunkSlot> = Vec::new();
        let mut i: usize = 0;
        while i < CHUNKS_PER_REGION
            invariant
                i <= CHUNKS_PER_REGION,
                chunks@.len() == i,
                forall|k: int| 0 <= k < i ==> fresh_slot(#[trigger] chunks@[k], k),
            decreases CHUNKS_PER_REGION - i,
        {
            let bx = (i % CHUNKS_PER_AXIS) * CHUNK_SIZE;
            let by = ((i / CHUNKS_PER_AXIS) % CHUNKS_PER_AXIS) * CHUNK_SIZE;
            let bz = (i / (CHUNKS_PER_AXIS * CHUNKS_PER_AXIS)) * CHUNK_SIZE;
            chunks.push(ChunkSlot { required: false, status: ChunkStatus::NotLoaded, base: (bx, by, bz) });
            i = i + 1;
        }
        RegionChunk { tile_x, tile_y, required: false, chunks }
    }

    /// Pins the region and all its chunks resident.
    pub fn mark_required(&mut self)
        ensures
            rc_marked_required(*old(self), *final(self)),
    {
        self.required = true;
        let n = self.chunks.len();
        let mut out: Vec<ChunkSlot> = Vec::new();
        let mut i: usize = 0;
        while i < n
            invariant
                i <= n,
                n == old(self).chunks@.len(),
                self.chunks == old(self).chunks,
                out@.len() == i,
                forall|k: int| 0 <= k < i ==> #[trigger] out@[k] == slot_required(old(self).chunks@[k]),
            decreases n - i,
        {
            let s = self.chunks[i];
            let status = if matches!(s.status, ChunkStatus::Expired) {
                ChunkStatus::NotLoaded
            } else {
                s.status
            };
            out.push(ChunkSlot { required: true, status, base: s.base });
            i = i + 1;
        }
        self.chunks = out;
    }

    /// Updates the chunk slots for a camera that keeps this region
    /// resident: queues unloaded chunks for generation and lets expired
    /// chunks reload.
    pub fn distance_activate(&mut self, _camera: &GameCamera)
        ensures
            rc_activated(*old(self), *final(self)),
    {
        let n = self.chunks.len();
        let mut out: Vec<ChunkSlot> = Vec::new();
        let mut i: usize = 0;
        while i < n
            invariant
                i <= n,
                n == old(self).chunks@.len(),
                self.chunks == old(self).chunks,
                self.required == old(self).required,
                self.tile_x == old(self).tile_x,
                self.tile_y == old(self).tile_y,
                out@.len() == i,
                forall|k: int| 0 <= k < i ==> #[trigger] out@[k] == slot_activated(old(self).chunks@[k]),
            decreases n - i,
        {
            let s = self.chunks[i];
            let status = match s.status {
                ChunkStatus::NotLoaded => ChunkStatus::Loading,
                ChunkStatus::Expired => ChunkStatus::NotLoaded,
                other => other,
            };
            out.push(ChunkSlot { required: s.required, status, base: s.base });
            i = i + 1;
        }
        self.chunks = out;
    }
}

/// The left end of the camera neighbourhood along one axis, clamped at the
/// world edge.
pub open spec fn nb_lo(c: int) -> int {
    if c == 0 {
        0
    } else {
        c - 1
    }
}

/// The right end of the camera neighbourhood along one axis, clamped at the
/// world edge.
pub open spec fn nb_hi(c: int) -> int {
    if c + 1 >= WORLD_WIDTH {
        WORLD_WIDTH - 1
    } else {
        c + 1
    }
}

/// Whether region id `id` lies in the 3x3 neighbourhood of the camera cell
/// `(cx, cy)`, clamped at the world edges.
pub open spec fn in_neighborhood(cx: int, cy: int, id: int) -> bool {
    exists|x: int, y: int|
        nb_lo(cx) <= x <= nb_hi(cx) && nb_lo(cy) <= y <= nb_hi(cy) && id == spec_planet_idx(x, y)
}

/// A slot of a region created during a camera pass: a fresh slot whose
/// chunk has been queued for generation.
pub open spec fn fresh_active_slot(s: ChunkSlot, i: int) -> bool {
    &&& !s.required
    &&& s.status == ChunkStatus::Loading
    &&& (s.base.0 as int, s.base.1 as int, s.base.2 as int) == spec_chunk_base(i)
}

/// A region the camera pass created: a fresh region for the grid cell of
/// `id`, not required, with every chunk queued for generation.
pub open spec fn rc_created_for_camera(rc: RegionChunk, id: int) -> bool {
    &&& spec_planet_idx(rc.tile_x as int, rc.tile_y as int) == id
    &&& rc.tile_x < WORLD_WIDTH
    &&& rc.tile_y < WORLD_WIDTH
    &&& !rc.required
    &&& rc.chunks@.len() == CHUNKS_PER_REGION
    &&& forall|i: int| 0 <= i < CHUNKS_PER_REGION ==> fresh_active_slot(#[trigger] rc.chunks@[i], i)
}

/// Whether `id` is one of the neighbourhood cells the camera pass has
/// already visited, walking rows `ylo..` and, within the current row `ny`,
/// columns `xlo..nx`.
spec fn in_scanned(xl: int, xh: int, yl: int, ny: int, nx: int, id: int) -> bool {
    exists|x: int, y: int|
        #![trigger spec_planet_idx(x, y)]
        xl <= x <= xh && yl <= y && (y < ny || (y == ny && x < nx)) && id == spec_planet_idx(x, y)
}

/// Visiting one more cell extends the scanned set by exactly that cell's
/// region id.
proof fn lemma_scanned_extend(xl: int, xh: int, yl: int, ny: int, nx: int, id: int)
    requires
        0 <= xl <= nx <= xh < WORLD_WIDTH,
        0 <= yl <= ny < WORLD_WIDTH,
    ensures
        in_scanned(xl, xh, yl, ny, nx + 1, id) == (in_scanned(xl, xh, yl, ny, nx, id) || id
            == spec_planet_idx(nx, ny)),
{
    if in_scanned(xl, xh, yl, ny, nx + 1, id) {
        let (x, y) = choose|x: int, y: int|
            #![trigger spec_planet_idx(x, y)]
            xl <= x <= xh && yl <= y && (y < ny || (y == ny && x < nx + 1)) && id
                == spec_planet_idx(x, y);
        if !(y < ny || (y == ny && x < nx)) {
            assert(y == ny && x == nx);
        } else {
            assert(in_scanned(xl, xh, yl, ny, nx, id));
        }
    }
    if in_scanned(xl, xh, yl, ny, nx, id) {
        let (x, y) = choose|x: int, y: int|
            #![trigger spec_planet_idx(x, y)]
            xl <= x <= xh && yl <= y && (y < ny || (y == ny && x < nx)) && id == spec_planet_idx(
                x,
                y,
            );
        assert(in_scanned(xl, xh, yl, ny, nx + 1, id));
    }
    if id == spec_planet_idx(nx, ny) {
        assert(in_scanned(xl, xh, yl, ny, nx + 1, id));
    }
}

/// Finishing a row and moving to the head of the next one scans no new
/// cell.
proof fn lemma_scanned_row(xl: int, xh: int, yl: int, ny: int, id: int)
    requires
        xl <= xh,
        yl <= ny,
    ensures
        in_scanned(xl, xh, yl, ny + 1, xl, id) == in_scanned(xl, xh, yl, ny, xh + 1, id),
{
    if in_scanned(xl, xh, yl, ny + 1, xl, id) {
        let (x, y) = choose|x: int, y: int|
            #![trigger spec_planet_idx(x, y)]
            xl <= x <= xh && yl <= y && (y < ny + 1 || (y == ny + 1 && x < xl)) && id
                == spec_planet_idx(x, y);
        assert(y < ny || (y == ny && x < xh + 1));
        assert(in_scanned(xl, xh, yl, ny, xh + 1, id));
    }
    if in_scanned(xl, xh, yl, ny, xh + 1, id) {
        let (x, y) = choose|x: int, y: int|
            #![trigger spec_planet_idx(x, y)]
            xl <= x <= xh && yl <= y && (y < ny || (y == ny && x < xh + 1)) && id
                == spec_planet_idx(x, y);
        assert(in_scanned(xl, xh, yl, ny + 1, xl, id));
    }
}

/// After the last row, the scanned set is exactly the camera
/// neighbourhood.
proof fn lemma_scanned_full(xl: int, xh: int, yl: int, yh: int, cx: int, cy: int, id: int)
    requires
        nb_lo(cx) == xl,
        nb_hi(cx) == xh,
        nb_lo(cy) == yl,
        nb_hi(cy) == yh,
    ensures
        in_scanned(xl, xh, yl, yh + 1, xl, id) == in_neighborhood(cx, cy, id),
{
    if in_scanned(xl, xh, yl, yh + 1, xl, id) {
        let (x, y) = choose|x: int, y: int|
            #![trigger spec_planet_idx(x, y)]
            xl <= x <= xh && yl <= y && (y < yh + 1 || (y == yh + 1 && x < xl)) && id
                == spec_planet_idx(x, y);
        assert(yl <= y <= yh);
        assert(in_neighborhood(cx, cy, id));
    }
    if in_neighborhood(cx, cy, id) {
        let (x, y) = choose|x: int, y: int|
            nb_lo(cx) <= x <= nb_hi(cx) && nb_lo(cy) <= y <= nb_hi(cy) && id == spec_planet_idx(
                x,
                y,
            );
        assert(y < yh + 1);
        assert(in_scanned(xl, xh, yl, yh + 1, xl, id));
    }
}

/// Whether the region id `id` lies in the camera neighbourhood whose
/// clamped bounds are `[xlo, xhi] x [ylo, yhi]`.
fn id_in_neighborhood(
    xlo: usize,
    xhi: usize,
    ylo: usize,
    yhi: usize,
    id: usize,
    Ghost(cx): Ghost<int>,
    Ghost(cy): Ghost<int>,
) -> (r: bool)
    requires
        nb_lo(cx) == xlo as int,
        nb_hi(cx) == xhi as int,
        nb_lo(cy) == ylo as int,
        nb_hi(cy) == yhi as int,
        xhi < WORLD_WIDTH,
        yhi < WORLD_WIDTH,
        id < WORLD_WIDTH * WORLD_WIDTH,
    ensures
        r == in_neighborhood(cx, cy, id as int),
{
    let (ex, ey) = crate::planet_idxmap(id);
    let inside = xlo <= ex && ex <= xhi && ylo <= ey && ey <= yhi;
    proof {
        if inside {
            assert(in_neighborhood(cx, cy, id as int));
        } else if in_neighborhood(cx, cy, id as int) {
            let (wx, wy) = choose|wx: int, wy: int|
                nb_lo(cx) <= wx <= nb_hi(cx) && nb_lo(cy) <= wy <= nb_hi(cy) && id
                    == spec_planet_idx(wx, wy);
            crate::lemma_planet_idx_bijective(wx, wy);
            crate::lemma_planet_idx_bijective(ex as int, ey as int);
            assert(false);
        }
    }
    inside
}

/// Owns all tracked regions, keyed by region id, together with the planet
/// and strata context generation reads.
pub struct ChunkStore {
    pub regions: Vec<(usize, RegionChunk)>,
    pub planet: Option<Planet>,
    pub strata: Option<StrataMaterials>,
}

impl ChunkStore {
    /// Region ids are tracked at most once, and every tracked id lies on
    /// the planetary grid.
    pub open spec fn wf(self) -> bool {
        &&& forall|i: int, j: int|
            0 <= i < j < self.regions@.len() ==> self.regions@[i].0 != self.regions@[j].0
        &&& forall|i: int|
            0 <= i < self.regions@.len()
                ==> (#[trigger] self.regions@[i]).0 < WORLD_WIDTH * WORLD_WIDTH
    }

    /// Whether a region with id `id` is tracked.
    pub open spec fn spec_has_region(self, id: int) -> bool {
        exists|i: int| 0 <= i < self.regions@.len() && (#[trigger] self.regions@[i]).0 == id
    }

    /// An empty store: no regions tracked, no planet, no strata.
    pub fn new() -> (r: ChunkStore)
        ensures
            r.wf(),
            r.regions@.len() == 0,
            r.planet is None,
            r.strata is None,
    {
        ChunkStore { regions: Vec::new(), planet: None, strata: None }
    }

    /// Builds the per-layer material lists from the catalog. Call this once
    /// after the raws have loaded.
    pub fn verify_strata(&mut self, raws: &Raws)
        ensures
            final(self).regions == old(self).regions,
            final(self).planet == old(self).planet,
            final(self).strata matches Some(sm) && crate::raws::strata_materials_ok(
                raws.materials.materials@,
                sm,
            ),
    {
        self.strata = Some(StrataMaterials::read(raws));
    }

    /// Installs the planet whose terrain the store generates.
    pub fn set_planet(&mut self, planet: Planet)
        ensures
            final(self).regions == old(self).regions,
            final(self).strata == old(self).strata,
            final(self).planet == Some(planet),
    {
        self.planet = Some(planet);
    }

    /// The position of the entry tracking `id`, if any.
    fn find_region(&self, id: usize) -> (r: Option<usize>)
        ensures
            match r {
                Some(i) => i < self.regions@.len() && self.regions@[i as int].0 == id,
                None => !self.spec_has_region(id as int),
            },
    {
        let n = self.regions.len();
        let mut i: usize = 0;
        while i < n
            invariant
                i <= n,
                n == self.regions@.len(),
                forall|j: int| 0 <= j < i ==> (#[trigger] self.regions@[j]).0 != id,
            decreases n - i,
        {
            if self.regions[i].0 == id {
                return Some(i);
            }
            i = i + 1;
        }
        None
    }

    /// Marks the region at grid cell `(tile_x, tile_y)` — and all its
    /// chunks — required, creating it first when it is not tracked yet.
    /// Required regions stay resident regardless of camera distance.
    pub fn with_playable_region(&mut self, tile_x: usize, tile_y: usize)
        requires
            old(self).wf(),
            tile_x < WORLD_WIDTH,
            tile_y < WORLD_WIDTH,
        ensures
            final(self).wf(),
            final(self).planet == old(self).planet,
            final(self).strata == old(self).strata,
            ({
                let id = spec_planet_idx(tile_x as int, tile_y as int);
                if old(self).spec_has_region(id) {
                    exists|i: int|
                        0 <= i < old(self).regions@.len() && (#[trigger] old(self).regions@[i]).0
                            == id && final(self).regions@ =~= old(self).regions@.update(
                            i,
                            (old(self).regions@[i].0, final(self).regions@[i].1),
                        ) && rc_marked_required(old(self).regions@[i].1, final(self).regions@[i].1)
                } else {
                    final(self).regions@.len() == old(self).regions@.len() + 1
                        && final(self).regions@.subrange(0, old(self).regions@.len() as int) =~= old(
                        self,
                    ).regions@ && final(self).regions@.last().0 == id && ({
                        let rc = final(self).regions@.last().1;
                        rc.tile_x == tile_x && rc.tile_y == tile_y && rc.required
                            && rc.chunks@.len() == CHUNKS_PER_REGION && forall|k: int|
                            0 <= k < CHUNKS_PER_REGION ==> (#[trigger] rc.chunks@[k]).required
                                && rc.chunks@[k].status == ChunkStatus::NotLoaded && (
                            rc.chunks@[k].base.0 as int,
                            rc.chunks@[k].base.1 as int,
                            rc.chunks@[k].base.2 as int,
                            ) == spec_chunk_base(k)
                    })
                }
            }),
    {
        let id = crate::planet_idx(tile_x, tile_y);
        match self.find_region(id) {
            Some(i) => {
                let (k, mut rc) = self.regions.remove(i);
                rc.mark_required();
                self.regions.insert(i, (k, rc));
                proof {
                    assert(self.regions@ =~= old(self).regions@.update(
                        i as int,
                        (k, self.regions@[i as int].1),
                    ));
                }
            },
            None => {
                let mut rc = RegionChunk::new(tile_x, tile_y);
                rc.mark_required();
                self.regions.push((id, rc));
            },
        }
    }

    /// Activates the camera's 3x3 region neighbourhood — creating missing
    /// regions, updating the chunk state of present ones — then drops every
    /// tracked region that is neither required nor in the neighbourhood.
    pub fn manage_for_camera(&mut self, camera: &GameCamera)
        requires
            old(self).wf(),
            camera.on_grid(),
        ensures
            final(self).wf(),
            final(self).planet == old(self).planet,
            final(self).strata == old(self).strata,
            forall|k: int|
                0 <= k < final(self).regions@.len() ==> (#[trigger] final(self).regions@[k]).1.required
                    || in_neighborhood(
                    camera.tile_x as int,
                    camera.tile_y as int,
                    final(self).regions@[k].0 as int,
                ),
            forall|id: int|
                in_neighborhood(camera.tile_x as int, camera.tile_y as int, id)
                    ==> final(self).spec_has_region(id),
            forall|j: int|
                0 <= j < old(self).regions@.len() && (#[trigger] old(self).regions@[j]).1.required
                    ==> exists|k: int|
                    0 <= k < final(self).regions@.len() && (#[trigger] final(self).regions@[k]).0
                        == old(self).regions@[j].0 && final(self).regions@[k].1.required,
            forall|k: int|
                0 <= k < final(self).regions@.len() ==> old(self).spec_has_region(
                    (#[trigger] final(self).regions@[k]).0 as int,
                ) || in_neighborhood(
                    camera.tile_x as int,
                    camera.tile_y as int,
                    final(self).regions@[k].0 as int,
                ),
            // Eviction: a region kept across the call was required before
            // it or lies in the neighbourhood; everything else is dropped.
            forall|k: int|
                0 <= k < final(self).regions@.len() ==> in_neighborhood(
                    camera.tile_x as int,
                    camera.tile_y as int,
                    (#[trigger] final(self).regions@[k]).0 as int,
                ) || exists|j: int|
                    0 <= j < old(self).regions@.len() && (#[trigger] old(self).regions@[j]).0
                        == final(self).regions@[k].0 && old(self).regions@[j].1.required,
            // A retained region in the neighbourhood had its chunk state
            // refreshed; one outside it is kept untouched.
            forall|k: int, j: int|
                #![trigger final(self).regions@[k], old(self).regions@[j]]
                0 <= k < final(self).regions@.len() && 0 <= j < old(self).regions@.len()
                    && final(self).regions@[k].0 == old(self).regions@[j].0 ==> if in_neighborhood(
                    camera.tile_x as int,
                    camera.tile_y as int,
                    final(self).regions@[k].0 as int,
                ) {
                    rc_activated(old(self).regions@[j].1, final(self).regions@[k].1)
                } else {
                    final(self).regions@[k].1 == old(self).regions@[j].1
                },
            // A region this call created is fresh for its grid cell, with
            // every chunk queued for generation.
            forall|k: int|
                0 <= k < final(self).regions@.len() && !old(self).spec_has_region(
                    (#[trigger] final(self).regions@[k]).0 as int,
                ) ==> rc_created_for_camera(
                    final(self).regions@[k].1,
                    final(self).regions@[k].0 as int,
                ),
    {
        let ghost cx = camera.tile_x as int;
        let ghost cy = camera.tile_y as int;
        let xlo = if camera.tile_x == 0 {
            0
        } else {
            camera.tile_x - 1
        };
        let xhi = if camera.tile_x + 1 >= WORLD_WIDTH {
            WORLD_WIDTH - 1
        } else {
            camera.tile_x + 1
        };
        let ylo = if camera.tile_y == 0 {
            0
        } else {
            camera.tile_y - 1
        };
        let yhi = if camera.tile_y + 1 >= WORLD_WIDTH {
            WORLD_WIDTH - 1
        } else {
            camera.tile_y + 1
        };
        let ghost regions0 = self.regions@;

        // First pass: make the whole neighbourhood resident and refresh the
        // chunk state of each of its regions.
        let mut ny = ylo;
        while ny <= yhi
            invariant
                nb_lo(cx) == xlo as int && nb_hi(cx) == xhi as int,
                nb_lo(cy) == ylo as int && nb_hi(cy) == yhi as int,
                xlo <= xhi < WORLD_WIDTH,
                ylo <= yhi < WORLD_WIDTH,
                ylo <= ny <= yhi + 1,
                self.wf(),
                self.planet == old(self).planet,
                self.strata == old(self).strata,
                regions0 == old(self).regions@,
                self.regions@.len() >= regions0.len(),
                forall|j: int|
                    0 <= j < regions0.len() ==> (#[trigger] self.regions@[j]).0 == regions0[j].0
                        && self.regions@[j].1.required == regions0[j].1.required,
                forall|j: int|
                    regions0.len() <= j < self.regions@.len() ==> in_neighborhood(
                        cx,
                        cy,
                        (#[trigger] self.regions@[j]).0 as int,
                    ),
                forall|j: int|
                    0 <= j < regions0.len() ==> if in_scanned(
                        xlo as int,
                        xhi as int,
                        ylo as int,
                        ny as int,
                        xlo as int,
                        (#[trigger] self.regions@[j]).0 as int,
                    ) {
                        rc_activated(regions0[j].1, self.regions@[j].1)
                    } else {
                        self.regions@[j].1 == regions0[j].1
                    },
                forall|j: int|
                    regions0.len() <= j < self.regions@.len() ==> rc_created_for_camera(
                        (#[trigger] self.regions@[j]).1,
                        self.regions@[j].0 as int,
                    ) && in_scanned(
                        xlo as int,
                        xhi as int,
                        ylo as int,
                        ny as int,
                        xlo as int,
                        self.regions@[j].0 as int,
                    ),
                forall|x: int, y: int|
                    xlo <= x <= xhi && ylo <= y < ny ==> self.spec_has_region(spec_planet_idx(x, y)),
            decreases yhi + 1 - ny,
        {
            let mut nx = xlo;
            while nx <= xhi
                invariant
                    nb_lo(cx) == xlo as int && nb_hi(cx) == xhi as int,
                    nb_lo(cy) == ylo as int && nb_hi(cy) == yhi as int,
                    xlo <= xhi < WORLD_WIDTH,
                    ylo <= yhi < WORLD_WIDTH,
                    ylo <= ny <= yhi,
                    xlo <= nx <= xhi + 1,
                    self.wf(),
                    self.planet == old(self).planet,
                    self.strata == old(self).strata,
                    regions0 == old(self).regions@,
                    self.regions@.len() >= regions0.len(),
                    forall|j: int|
                        0 <= j < regions0.len() ==> (#[trigger] self.regions@[j]).0 == regions0[j].0
                            && self.regions@[j].1.required == regions0[j].1.required,
                    forall|j: int|
                        regions0.len() <= j < self.regions@.len() ==> in_neighborhood(
                            cx,
                            cy,
                            (#[trigger] self.regions@[j]).0 as int,
                        ),
                    forall|j: int|
                        0 <= j < regions0.len() ==> if in_scanned(
                            xlo as int,
                            xhi as int,
                            ylo as int,
                            ny as int,
                            nx as int,
                            (#[trigger] self.regions@[j]).0 as int,
                        ) {
                            rc_activated(regions0[j].1, self.regions@[j].1)
                        } else {
                            self.regions@[j].1 == regions0[j].1
                        },
                    forall|j: int|
                        regions0.len() <= j < self.regions@.len() ==> rc_created_for_camera(
                            (#[trigger] self.regions@[j]).1,
                            self.regions@[j].0 as int,
                        ) && in_scanned(
                            xlo as int,
                            xhi as int,
                            ylo as int,
                            ny as int,
                            nx as int,
                            self.regions@[j].0 as int,
                        ),
                    forall|x: int, y: int|
                        xlo <= x <= xhi && ylo <= y < ny ==> self.spec_has_region(
                            spec_planet_idx(x, y),
                        ),
                    forall|x: int|
                        xlo <= x < nx ==> self.spec_has_region(spec_planet_idx(x, ny as int)),
                decreases xhi + 1 - nx,
            {
                let id = crate::planet_idx(nx, ny);
                let ghost pre_step = self.regions@;
                proof {
                    // This cell has not been visited yet: its id is no
                    // scanned id.
                    if in_scanned(xlo as int, xhi as int, ylo as int, ny as int, nx as int, id as int) {
                        let (wx, wy) = choose|wx: int, wy: int|
                            #![trigger spec_planet_idx(wx, wy)]
                            xlo as int <= wx <= xhi as int && ylo as int <= wy && (wy < ny as int
                                || (wy == ny as int && wx < nx as int)) && id == spec_planet_idx(
                                wx,
                                wy,
                            );
                        crate::lemma_planet_idx_bijective(wx, wy);
                        crate::lemma_planet_idx_bijective(nx as int, ny as int);
                        assert(false);
                    }
                }
                match self.find_region(id) {
                    Some(i) => {
                        let (k, mut rc) = self.regions.remove(i);
                        rc.distance_activate(camera);
                        self.regions.insert(i, (k, rc));
                        proof {
                            assert(self.regions@ =~= pre_step.update(
                                i as int,
                                (k, self.regions@[i as int].1),
                            ));
                            assert(self.regions@[i as int].0 == id);
                            // The entry found is an original one: appended
                            // entries all carry already-scanned ids.
                            assert(i < regions0.len());
                            assert(pre_step[i as int].1 == regions0[i as int].1);
                            assert(rc_activated(regions0[i as int].1, self.regions@[i as int].1));
                            assert forall|j: int| 0 <= j < regions0.len() implies (if in_scanned(
                                xlo as int,
                                xhi as int,
                                ylo as int,
                                ny as int,
                                nx as int + 1,
                                (#[trigger] self.regions@[j]).0 as int,
                            ) {
                                rc_activated(regions0[j].1, self.regions@[j].1)
                            } else {
                                self.regions@[j].1 == regions0[j].1
                            }) by {
                                lemma_scanned_extend(
                                    xlo as int,
                                    xhi as int,
                                    ylo as int,
                                    ny as int,
                                    nx as int,
                                    regions0[j].0 as int,
                                );
                                if regions0[j].0 == id {
                                    assert(pre_step[j].0 == pre_step[i as int].0);
                                    assert(j == i);
                                } else {
                                    assert(self.regions@[j] == pre_step[j]);
                                }
                            }
                            assert forall|j: int|
                                regions0.len() <= j < self.regions@.len() implies
                                rc_created_for_camera(
                                (#[trigger] self.regions@[j]).1,
                                self.regions@[j].0 as int,
                            ) && in_scanned(
                                xlo as int,
                                xhi as int,
                                ylo as int,
                                ny as int,
                                nx as int + 1,
                                self.regions@[j].0 as int,
                            ) by {
                                assert(self.regions@[j] == pre_step[j]);
                                lemma_scanned_extend(
                                    xlo as int,
                                    xhi as int,
                                    ylo as int,
                                    ny as int,
                                    nx as int,
                                    pre_step[j].0 as int,
                                );
                            }
                        }
                    },
                    None => {
                        let mut rc = RegionChunk::new(nx, ny);
                        let ghost rc1 = rc;
                        rc.distance_activate(camera);
                        self.regions.push((id, rc));
                        proof {
                            assert(in_neighborhood(cx, cy, id as int));
                            assert(self.regions@[self.regions@.len() - 1].0 == id);
                            // The pushed region is fresh with every chunk
                            // queued for generation.
                            let pushed = self.regions@[self.regions@.len() - 1].1;
                            assert(rc_created_for_camera(pushed, id as int)) by {
                                assert(rc_fresh(rc1, nx, ny));
                                assert(rc_activated(rc1, pushed));
                                assert forall|ci: int|
                                    0 <= ci < CHUNKS_PER_REGION implies fresh_active_slot(
                                    #[trigger] pushed.chunks@[ci],
                                    ci,
                                ) by {
                                    assert(fresh_slot(rc1.chunks@[ci], ci));
                                    assert(pushed.chunks@[ci] == slot_activated(rc1.chunks@[ci]));
                                }
                            }
                            assert forall|j: int| 0 <= j < regions0.len() implies (if in_scanned(
                                xlo as int,
                                xhi as int,
                                ylo as int,
                                ny as int,
                                nx as int + 1,
                                (#[trigger] self.regions@[j]).0 as int,
                            ) {
                                rc_activated(regions0[j].1, self.regions@[j].1)
                            } else {
                                self.regions@[j].1 == regions0[j].1
                            }) by {
                                lemma_scanned_extend(
                                    xlo as int,
                                    xhi as int,
                                    ylo as int,
                                    ny as int,
                                    nx as int,
                                    regions0[j].0 as int,
                                );
                                assert(self.regions@[j] == pre_step[j]);
                                assert(pre_step[j].0 != id);
                            }
                            assert forall|j: int|
                                regions0.len() <= j < self.regions@.len() implies
                                rc_created_for_camera(
                                (#[trigger] self.regions@[j]).1,
                                self.regions@[j].0 as int,
                            ) && in_scanned(
                                xlo as int,
                                xhi as int,
                                ylo as int,
                                ny as int,
                                nx as int + 1,
                                self.regions@[j].0 as int,
                            ) by {
                                lemma_scanned_extend(
                                    xlo as int,
                                    xhi as int,
                                    ylo as int,
                                    ny as int,
                                    nx as int,
                                    self.regions@[j].0 as int,
                                );
                                if j < self.regions@.len() - 1 {
                                    assert(self.regions@[j] == pre_step[j]);
                                }
                            }
                        }
                    },
                }
                proof {
                    assert(self.spec_has_region(id as int));
                    assert forall|x: int|
                        xlo <= x < nx + 1 implies self.spec_has_region(
                        spec_planet_idx(x, ny as int),
                    ) by {
                        if x < nx {
                            let w = choose|w: int|
                                0 <= w < pre_step.len() && pre_step[w].0 == spec_planet_idx(
                                    x,
                                    ny as int,
                                );
                            assert(self.regions@[w].0 == pre_step[w].0);
                        }
                    }
                    assert forall|x: int, y: int|
                        xlo <= x <= xhi && ylo <= y < ny implies self.spec_has_region(
                        spec_planet_idx(x, y),
                    ) by {
                        let w = choose|w: int|
                            0 <= w < pre_step.len() && pre_step[w].0 == spec_planet_idx(x, y);
                        assert(self.regions@[w].0 == pre_step[w].0);
                    }
                }
                nx = nx + 1;
            }
            proof {
                // Finishing the row scans nothing new.
                assert forall|j: int| 0 <= j < self.regions@.len() implies in_scanned(
                    xlo as int,
                    xhi as int,
                    ylo as int,
                    ny as int + 1,
                    xlo as int,
                    (#[trigger] self.regions@[j]).0 as int,
                ) == in_scanned(
                    xlo as int,
                    xhi as int,
                    ylo as int,
                    ny as int,
                    xhi as int + 1,
                    self.regions@[j].0 as int,
                ) by {
                    lemma_scanned_row(
                        xlo as int,
                        xhi as int,
                        ylo as int,
                        ny as int,
                        self.regions@[j].0 as int,
                    );
                }
            }
            ny = ny + 1;
        }

        // Second pass: drop every region that is neither required nor in
        // the neighbourhood.
        let ghost pre = self.regions@;
        let ghost cond = |e: (usize, RegionChunk)| e.1.required || in_neighborhood(
            cx,
            cy,
            e.0 as int,
        );
        let mut kept: Vec<(usize, RegionChunk)> = Vec::new();
        while self.regions.len() > 0
            invariant
                nb_lo(cx) == xlo as int && nb_hi(cx) == xhi as int,
                nb_lo(cy) == ylo as int && nb_hi(cy) == yhi as int,
                cond == (|e: (usize, RegionChunk)| e.1.required || in_neighborhood(
                    cx,
                    cy,
                    e.0 as int,
                )),
                self.regions@.len() <= pre.len(),
                self.regions@ == pre.subrange(
                    pre.len() - self.regions@.len(),
                    pre.len() as int,
                ),
                kept@ == pre.subrange(0, pre.len() - self.regions@.len()).filter(cond),
                self.planet == old(self).planet,
                self.strata == old(self).strata,
                forall|i: int|
                    0 <= i < pre.len() ==> (#[trigger] pre[i]).0 < WORLD_WIDTH * WORLD_WIDTH,
            decreases self.regions@.len(),
        {
            let ghost done = pre.len() - self.regions@.len();
            let e = self.regions.remove(0);
            let keep = e.1.required || id_in_neighborhood(
                xlo,
                xhi,
                ylo,
                yhi,
                e.0,
                Ghost(cx),
                Ghost(cy),
            );
            proof {
                assert(keep == cond(e));
                let prefix = pre.subrange(0, done);
                let prefix1 = pre.subrange(0, done + 1);
                assert(prefix1 =~= prefix + seq![e]);
                Seq::filter_distributes_over_add(prefix, seq![e], cond);
                reveal_with_fuel(Seq::filter, 2);
                let se = seq![e];
                assert(se.drop_last() =~= Seq::<(usize, RegionChunk)>::empty());
                assert(se.drop_last().filter(cond) =~= Seq::<(usize, RegionChunk)>::empty());
                if cond(e) {
                    assert(se.filter(cond) =~= se.drop_last().filter(cond).push(e));
                    assert(se.filter(cond) =~= seq![e]);
                } else {
                    assert(se.filter(cond) =~= Seq::<(usize, RegionChunk)>::empty());
                }
                assert(self.regions@ =~= pre.subrange(pre.len() - self.regions@.len(), pre.len() as int));
            }
            if keep {
                kept.push(e);
            }
            proof {
                assert(kept@ =~= pre.subrange(0, done + 1).filter(cond));
            }
        }
        proof {
            assert(pre.subrange(0, pre.len() as int) =~= pre);
        }
        self.regions = kept;

        proof {
            broadcast use vstd::seq_lib::group_filter_ensures;

            let fin = self.regions@;
            assert(fin == pre.filter(cond));
            assert forall|k: int|
                0 <= k < fin.len() implies (#[trigger] fin[k]).1.required || in_neighborhood(
                cx,
                cy,
                fin[k].0 as int,
            ) by {
                assert(cond(fin[k]));
            }
            assert forall|id: int|
                in_neighborhood(cx, cy, id) implies self.spec_has_region(id) by {
                let (wx, wy) = choose|wx: int, wy: int|
                    nb_lo(cx) <= wx <= nb_hi(cx) && nb_lo(cy) <= wy <= nb_hi(cy) && id
                        == spec_planet_idx(wx, wy);
                let j = choose|j: int| 0 <= j < pre.len() && pre[j].0 == id;
                assert(cond(pre[j]));
                assert(pre.filter(cond).contains(pre[j]));
                let k = choose|k: int| 0 <= k < fin.len() && fin[k] == pre[j];
                assert(self.regions@[k].0 == id);
            }
            assert forall|j: int|
                0 <= j < old(self).regions@.len() && (#[trigger] old(self).regions@[j]).1.required
                    implies exists|k: int|
                0 <= k < fin.len() && (#[trigger] fin[k]).0 == old(self).regions@[j].0
                    && fin[k].1.required by {
                assert(pre[j].0 == regions0[j].0 && pre[j].1.required == regions0[j].1.required);
                assert(cond(pre[j]));
                assert(pre.filter(cond).contains(pre[j]));
                let k = choose|k: int| 0 <= k < fin.len() && fin[k] == pre[j];
                assert(0 <= k < fin.len() && fin[k].0 == old(self).regions@[j].0
                    && fin[k].1.required);
            }
            assert forall|k: int|
                0 <= k < fin.len() implies old(self).spec_has_region((#[trigger] fin[k]).0 as int)
                    || in_neighborhood(cx, cy, fin[k].0 as int) by {
                lemma_filter_elem_of(pre, cond, fin[k]);
                let j = choose|j: int| 0 <= j < pre.len() && pre[j] == fin[k];
                if j < regions0.len() {
                    assert(regions0[j].0 == pre[j].0);
                    assert(old(self).spec_has_region(fin[k].0 as int));
                } else {
                    assert(in_neighborhood(cx, cy, pre[j].0 as int));
                }
            }
            // The scanned set of the finished pass is the neighbourhood,
            // which ties every kept entry's contents to its old one.
            assert forall|k: int, j: int|
                #![trigger fin[k], old(self).regions@[j]]
                0 <= k < fin.len() && 0 <= j < old(self).regions@.len() && fin[k].0 == old(
                    self,
                ).regions@[j].0 implies (if in_neighborhood(cx, cy, fin[k].0 as int) {
                rc_activated(old(self).regions@[j].1, fin[k].1)
            } else {
                fin[k].1 == old(self).regions@[j].1
            }) by {
                lemma_filter_elem_of(pre, cond, fin[k]);
                let j2 = choose|j2: int| 0 <= j2 < pre.len() && pre[j2] == fin[k];
                if j2 >= regions0.len() {
                    assert(pre[j as int].0 == regions0[j].0);
                    assert(pre[j2].0 == pre[j as int].0);
                    assert(false);
                }
                assert(pre[j2].0 == regions0[j2].0);
                assert(j2 == j);
                lemma_scanned_full(
                    xlo as int,
                    xhi as int,
                    ylo as int,
                    yhi as int,
                    cx,
                    cy,
                    fin[k].0 as int,
                );
            }
            assert forall|k: int|
                0 <= k < fin.len() && !old(self).spec_has_region(
                    (#[trigger] fin[k]).0 as int,
                ) implies rc_created_for_camera(fin[k].1, fin[k].0 as int) by {
                lemma_filter_elem_of(pre, cond, fin[k]);
                let j2 = choose|j2: int| 0 <= j2 < pre.len() && pre[j2] == fin[k];
                if j2 < regions0.len() {
                    assert(old(self).regions@[j2].0 == fin[k].0);
                    assert(false);
                }
            }
            assert forall|k: int|
                0 <= k < fin.len() implies in_neighborhood(cx, cy, (#[trigger] fin[k]).0 as int)
                    || exists|j: int|
                    0 <= j < old(self).regions@.len() && (#[trigger] old(self).regions@[j]).0
                        == fin[k].0 && old(self).regions@[j].1.required by {
                if !in_neighborhood(cx, cy, fin[k].0 as int) {
                    assert(cond(fin[k]));
                    assert(fin[k].1.required);
                    lemma_filter_elem_of(pre, cond, fin[k]);
                    let j2 = choose|j2: int| 0 <= j2 < pre.len() && pre[j2] == fin[k];
                    if j2 >= regions0.len() {
                        assert(rc_created_for_camera(pre[j2].1, pre[j2].0 as int));
                        assert(false);
                    }
                    assert(pre[j2].1.required == regions0[j2].1.required);
                    assert(old(self).regions@[j2].0 == fin[k].0
                        && old(self).regions@[j2].1.required);
                }
            }
            lemma_filter_distinct_keys(pre, cond);
            assert forall|k: int|
                0 <= k < fin.len() implies (#[trigger] fin[k]).0 < WORLD_WIDTH * WORLD_WIDTH by {
                lemma_filter_elem_of(pre, cond, fin[k]);
                let j = choose|j: int| 0 <= j < pre.len() && pre[j] == fin[k];
                assert(pre[j].0 < WORLD_WIDTH * WORLD_WIDTH);
            }
        }
    }
}

/// An element of a filtered sequence is an element of the sequence, and
/// satisfies the predicate.
proof fn lemma_filter_elem_of(
    s: Seq<(usize, RegionChunk)>,
    pred: spec_fn((usize, RegionChunk)) -> bool,
    x: (usize, RegionChunk),
)
    requires
        s.filter(pred).contains(x),
    ensures
        s.contains(x),
        pred(x),
    decreases s.len(),
{
    reveal_with_fuel(Seq::filter, 2);
    if s.len() == 0 {
    } else {
        let t = s.drop_last();
        if pred(s.last()) {
            if x == s.last() {
                assert(s[s.len() - 1] == x);
            } else {
                let f = s.filter(pred);
                let fi = choose|fi: int| 0 <= fi < f.len() && f[fi] == x;
                assert(t.filter(pred)[fi] == x);
                assert(t.filter(pred).contains(x));
                lemma_filter_elem_of(t, pred, x);
                let ti = choose|ti: int| 0 <= ti < t.len() && t[ti] == x;
                assert(s[ti] == x);
            }
        } else {
            lemma_filter_elem_of(t, pred, x);
            let ti = choose|ti: int| 0 <= ti < t.len() && t[ti] == x;
            assert(s[ti] == x);
        }
    }
}

/// Filtering keeps the keys of a key-distinct sequence distinct.
proof fn lemma_filter_distinct_keys(
    s: Seq<(usize, RegionChunk)>,
    pred: spec_fn((usize, RegionChunk)) -> bool,
)
    requires
        forall|i: int, j: int| 0 <= i < j < s.len() ==> (#[trigger] s[i]).0 != (#[trigger] s[j]).0,
    ensures
        forall|i: int, j: int|
            0 <= i < j < s.filter(pred).len() ==> (#[trigger] s.filter(pred)[i]).0 != (
            #[trigger] s.filter(pred)[j]).0,
    decreases s.len(),
{
    reveal_with_fuel(Seq::filter, 2);
    if s.len() == 0 {
    } else {
        let t = s.drop_last();
        assert(forall|i: int, j: int|
            0 <= i < j < t.len() ==> (#[trigger] t[i]).0 != (#[trigger] t[j]).0) by {
            assert(forall|i: int| 0 <= i < t.len() ==> t[i] == s[i]);
        }
        lemma_filter_distinct_keys(t, pred);
        if pred(s.last()) {
            let f = s.filter(pred);
            let tf = t.filter(pred);
            assert(f =~= tf.push(s.last()));
            assert forall|i: int, j: int|
                0 <= i < j < f.len() implies (#[trigger] f[i]).0 != (#[trigger] f[j]).0 by {
                if j == f.len() - 1 {
                    assert(tf.contains(tf[i]));
                    lemma_filter_elem_of(t, pred, tf[i]);
                    let ti = choose|ti: int| 0 <= ti < t.len() && t[ti] == tf[i];
                    assert(s[ti] == tf[i]);
                    assert(s[ti].0 != s[s.len() - 1].0);
                } else {
                    assert(f[i] == tf[i] && f[j] == tf[j]);
                }
            }
        }
    }
}

} // verus!
