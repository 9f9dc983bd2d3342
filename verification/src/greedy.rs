//! Greedy meshing: covering a set of tile indices with few rectangles.
//!
//! The mesher repeatedly takes the smallest remaining tile index, grows a
//! run rightward while the following indices are present, then grows the
//! run downward while every cell of the next full-width row is present, and
//! emits one primitive per run. The contract is exact coverage: the emitted
//! primitives cover every input index, cover nothing else, never overlap,
//! and number at most the input's size. Turning primitives into render
//! geometry is the renderer's business.

use crate::REGION_TILES_COUNT;
use crate::REGION_WIDTH;
use vstd::prelude::*;

verus! {

/// A working set of region tile indices that still need a face.
pub struct CubeMap {
    pub cells: Vec<usize>,
}

/// Whether `c` is one of the indices of `s`.
pub open spec fn cm_contains(s: Seq<usize>, c: int) -> bool {
    exists|k: int| 0 <= k < s.len() && s[k] == c
}

impl CubeMap {
    /// The indices are strictly increasing (so each appears once) and all
    /// address tiles of one region volume.
    pub open spec fn wf(self) -> bool {
        &&& forall|i: int, j: int|
            0 <= i < j < self.cells@.len() ==> self.cells@[i] < self.cells@[j]
        &&& forall|i: int|
            0 <= i < self.cells@.len() ==> (#[trigger] self.cells@[i]) < REGION_TILES_COUNT
    }

    /// An empty working set.
    pub fn new() -> (r: CubeMap)
        ensures
            r.wf(),
            r.cells@.len() == 0,
    {
        CubeMap { cells: Vec::new() }
    }

    /// How many indices remain.
    pub fn len(&self) -> (r: usize)
        ensures
            r == self.cells@.len(),
    {
        self.cells.len()
    }

    /// Whether `idx` is in the working set.
    pub fn contains(&self, idx: usize) -> (r: bool)
        ensures
            r == cm_contains(self.cells@, idx as int),
    {
        let n = self.cells.len();
        let mut i: usize = 0;
        while i < n
            invariant
                i <= n,
                n == self.cells@.len(),
                forall|k: int| 0 <= k < i ==> self.cells@[k] != idx,
            decreases n - i,
        {
            if self.cells[i] == idx {
                return true;
            }
            i = i + 1;
        }
        false
    }

    /// Adds `idx` to the working set; adding a present index changes
    /// nothing.
    pub fn insert(&mut self, idx: usize)
        requires
            old(self).wf(),
            idx < REGION_TILES_COUNT,
        ensures
            final(self).wf(),
            forall|c: int|
                #![trigger cm_contains(final(self).cells@, c)]
                #![trigger cm_contains(old(self).cells@, c)]
                cm_contains(final(self).cells@, c) == (cm_contains(old(self).cells@, c) || c
                    == idx),
            final(self).cells@.len() <= old(self).cells@.len() + 1,
    {
        let n = self.cells.len();
        let mut i: usize = 0;
        while i < n && self.cells[i] < idx
            invariant
                i <= n,
                n == self.cells@.len(),
                forall|k: int| 0 <= k < i ==> self.cells@[k] < idx,
                self.wf(),
            decreases n - i,
        {
            i = i + 1;
        }
        if i < n && self.cells[i] == idx {
            proof {
                assert(cm_contains(self.cells@, idx as int));
            }
            return ;
        }
        let ghost pre = self.cells@;
        let ghost pos = i as int;
        self.cells.insert(i, idx);
        proof {
            assert(self.cells@ == pre.insert(pos, idx));
            assert(pos < pre.len() ==> pre[pos] > idx);
            assert forall|a: int, b: int|
                0 <= a < b < self.cells@.len() implies self.cells@[a] < self.cells@[b] by {
                if b < pos {
                } else if a >= pos + 1 {
                    assert(self.cells@[a] == pre[a - 1] && self.cells@[b] == pre[b - 1]);
                } else if a < pos && b == pos {
                    assert(self.cells@[a] == pre[a]);
                } else if a == pos && b > pos {
                    assert(self.cells@[b] == pre[b - 1]);
                    assert(b - 1 >= pos);
                    assert(pre[b - 1] >= pre[pos]);
                } else if a < pos && b > pos {
                    assert(self.cells@[a] == pre[a] && self.cells@[b] == pre[b - 1]);
                    assert(a < b - 1);
                }
            }
            assert forall|c: int|
                cm_contains(self.cells@, c) == (cm_contains(pre, c) || c == idx) by {
                if cm_contains(pre, c) {
                    let k = choose|k: int| 0 <= k < pre.len() && pre[k] == c;
                    if k < pos {
                        assert(self.cells@[k] == c);
                    } else {
                        assert(self.cells@[k + 1] == c);
                    }
                }
                assert(self.cells@[pos] == idx);
                if cm_contains(self.cells@, c) && c != idx {
                    let k = choose|k: int| 0 <= k < self.cells@.len() && self.cells@[k] == c;
                    if k < pos {
                        assert(pre[k] == c);
                    } else {
                        assert(pre[k - 1] == c);
                    }
                }
            }
        }
    }

    /// Removes and returns the smallest remaining index.
    pub fn take_min(&mut self) -> (r: usize)
        requires
            old(self).wf(),
            old(self).cells@.len() > 0,
        ensures
            final(self).wf(),
            r == old(self).cells@[0],
            r < REGION_TILES_COUNT,
            final(self).cells@.len() == old(self).cells@.len() - 1,
            forall|c: int|
                #![trigger cm_contains(final(self).cells@, c)]
                #![trigger cm_contains(old(self).cells@, c)]
                cm_contains(final(self).cells@, c) == (cm_contains(old(self).cells@, c) && c != r),
            forall|c: int| #[trigger] cm_contains(final(self).cells@, c) ==> c > r,
    {
        let ghost pre = self.cells@;
        let r = self.cells.remove(0);
        proof {
            assert forall|c: int|
                cm_contains(self.cells@, c) == (cm_contains(pre, c) && c != r) by {
                if cm_contains(self.cells@, c) {
                    let k = choose|k: int| 0 <= k < self.cells@.len() && self.cells@[k] == c;
                    assert(pre[k + 1] == c);
                    assert(pre[k + 1] > pre[0]);
                }
                if cm_contains(pre, c) && c != r {
                    let k = choose|k: int| 0 <= k < pre.len() && pre[k] == c;
                    assert(k > 0);
                    assert(self.cells@[k - 1] == c);
                }
            }
        }
        r
    }

    /// Removes `idx`, which must be present.
    pub fn remove_cell(&mut self, idx: usize)
        requires
            old(self).wf(),
            cm_contains(old(self).cells@, idx as int),
        ensures
            final(self).wf(),
            final(self).cells@.len() == old(self).cells@.len() - 1,
            forall|c: int|
                #![trigger cm_contains(final(self).cells@, c)]
                #![trigger cm_contains(old(self).cells@, c)]
                cm_contains(final(self).cells@, c) == (cm_contains(old(self).cells@, c) && c
                    != idx),
    {
        let n = self.cells.len();
        let mut i: usize = 0;
        while i < n
            invariant
                i <= n,
                n == self.cells@.len(),
                self == old(self),
                self.wf(),
                cm_contains(self.cells@, idx as int),
                forall|k: int| 0 <= k < i ==> self.cells@[k] != idx,
            decreases n - i,
        {
            if self.cells[i] == idx {
                let ghost pre = self.cells@;
                let ghost pos = i as int;
                self.cells.remove(i);
                proof {
                    assert(self.cells@ == pre.remove(pos));
                    assert forall|a: int, b: int|
                        0 <= a < b < self.cells@.len() implies self.cells@[a] < self.cells@[b] by {
                        if b < pos {
                        } else if a >= pos {
                            assert(self.cells@[a] == pre[a + 1] && self.cells@[b] == pre[b + 1]);
                        } else {
                            assert(self.cells@[a] == pre[a] && self.cells@[b] == pre[b + 1]);
                        }
                    }
                    assert forall|c: int|
                        cm_contains(self.cells@, c) == (cm_contains(pre, c) && c != idx) by {
                        if cm_contains(self.cells@, c) {
                            let k = choose|k: int|
                                0 <= k < self.cells@.len() && self.cells@[k] == c;
                            if k < pos {
                                assert(pre[k] == c);
                                assert(pre[k] != pre[pos]);
                            } else {
                                assert(pre[k + 1] == c);
                                assert(pre[k + 1] != pre[pos]);
                            }
                        }
                        if cm_contains(pre, c) && c != idx {
                            let k = choose|k: int| 0 <= k < pre.len() && pre[k] == c;
                            assert(pre[pos] == idx);
                            assert(k != pos);
                            if k < pos {
                                assert(self.cells@[k] == c);
                            } else {
                                assert(self.cells@[k - 1] == c);
                            }
                        }
                    }
                }
                return ;
            }
            i = i + 1;
        }
        proof {
            let k = choose|k: int| 0 <= k < self.cells@.len() && self.cells@[k] == idx as int;
            assert(false);
        }
    }
}

/// One rectangular render primitive: anchored at tile `(x, y, z)`, `w`
/// cells wide and `h` rows deep in the tile grid (one tile thick).
#[derive(Clone, Copy, PartialEq, Eq, Structural, Debug)]
pub struct MeshPrim {
    pub x: usize,
    pub y: usize,
    pub z: usize,
    pub w: usize,
    pub h: usize,
}

/// Whether `c` lies strictly inside the rightward run that starts just
/// after `idx` and is `w` cells wide in all.
pub open spec fn in_run(idx: int, w: int, c: int) -> bool {
    idx < c < idx + w
}

/// The first tile index of row `j` of a block anchored at `idx`.
pub open spec fn row_start(idx: int, j: int) -> int {
    idx + j * (REGION_WIDTH as int)
}

/// Whether `c` lies in one of the rows `1 .. h` of the `w`-wide block
/// anchored at `idx`.
pub open spec fn in_rows(idx: int, w: int, h: int, c: int) -> bool {
    exists|j: int| 1 <= j < h && (#[trigger] row_start(idx, j)) <= c < row_start(idx, j) + w
}

/// Whether primitive `p` covers tile index `c`.
pub open spec fn prim_covers(p: MeshPrim, c: int) -> bool {
    let base = crate::spec_mapidx(p.x as int, p.y as int, p.z as int);
    exists|j: int| 0 <= j < p.h && (#[trigger] row_start(base, j)) <= c < row_start(base, j) + p.w
}

/// Exact coverage: the primitives cover every index of the input set and
/// nothing else, no two primitives overlap, and there are at most as many
/// primitives as input indices.
pub open spec fn greedy_post(orig: Seq<usize>, prims: Seq<MeshPrim>) -> bool {
    &&& forall|a: int, c: int|
        0 <= a < prims.len() && #[trigger] prim_covers(prims[a], c) ==> cm_contains(orig, c)
    &&& forall|c: int|
        cm_contains(orig, c) ==> exists|a: int|
            0 <= a < prims.len() && #[trigger] prim_covers(prims[a], c)
    &&& forall|a1: int, a2: int, c: int|
        0 <= a1 < a2 < prims.len() ==> !(#[trigger] prim_covers(prims[a1], c)
            && #[trigger] prim_covers(prims[a2], c))
    &&& prims.len() <= orig.len()
}

/// Grows a run rightward from `idx` (already taken) while the following
/// indices are in the working set, removing them; the run never leaves the
/// tile row it starts in. Returns the run's width.
fn grow_right(cube_index: &mut CubeMap, idx: usize) -> (w: usize)
    requires
        old(cube_index).wf(),
        idx < REGION_TILES_COUNT,
    ensures
        final(cube_index).wf(),
        1 <= w,
        (idx as int % (REGION_WIDTH as int)) + w <= REGION_WIDTH,
        idx + w <= REGION_TILES_COUNT,
        forall|c: int|
            in_run(idx as int, w as int, c) ==> #[trigger] cm_contains(old(cube_index).cells@, c),
        forall|c: int|
            #![trigger cm_contains(final(cube_index).cells@, c)]
            #![trigger cm_contains(old(cube_index).cells@, c)]
            cm_contains(final(cube_index).cells@, c) == (cm_contains(old(cube_index).cells@, c)
                && !in_run(idx as int, w as int, c)),
        final(cube_index).cells@.len() == old(cube_index).cells@.len() - (w - 1),
        (idx as int % (REGION_WIDTH as int)) + w == REGION_WIDTH || (!cm_contains(
            old(cube_index).cells@,
            idx + w,
        ) && !cm_contains(final(cube_index).cells@, idx + w)),
{
    let ghost orig0 = old(cube_index).cells@;
    proof {
        vstd::arithmetic::div_mod::lemma_fundamental_div_mod(idx as int, REGION_WIDTH as int);
        vstd::arithmetic::div_mod::lemma_mod_bound(idx as int, REGION_WIDTH as int);
        vstd::arithmetic::div_mod::lemma_div_is_ordered(
            idx as int,
            (REGION_TILES_COUNT - 1) as int,
            REGION_WIDTH as int,
        );
        vstd::arithmetic::div_mod::lemma_div_is_ordered(0, idx as int, REGION_WIDTH as int);
        vstd::arithmetic::div_mod::lemma_fundamental_div_mod_converse(
            (REGION_TILES_COUNT - 1) as int,
            REGION_WIDTH as int,
            (REGION_TILES_COUNT / REGION_WIDTH - 1) as int,
            (REGION_WIDTH - 1) as int,
        );
    }
    let row_end = idx - (idx % REGION_WIDTH) + REGION_WIDTH;
    let mut width: usize = 1;
    while idx + width < row_end && cube_index.contains(idx + width)
        invariant
            cube_index.wf(),
            1 <= width,
            idx < REGION_TILES_COUNT,
            row_end as int == idx as int - (idx as int % (REGION_WIDTH as int)) + REGION_WIDTH,
            row_end <= REGION_TILES_COUNT,
            idx + width <= row_end,
            forall|c: int|
                in_run(idx as int, width as int, c) ==> #[trigger] cm_contains(orig0, c),
            forall|c: int|
                #![trigger cm_contains(cube_index.cells@, c)]
                #![trigger cm_contains(orig0, c)]
                cm_contains(cube_index.cells@, c) == (cm_contains(orig0, c)
                    && !in_run(idx as int, width as int, c)),
            cube_index.cells@.len() == orig0.len() - (width - 1),
        decreases cube_index.cells@.len(),
    {
        let ghost before = cube_index.cells@;
        proof {
            assert(cm_contains(before, idx as int + width as int));
            assert(cm_contains(orig0, idx as int + width as int));
            assert(forall|c: int|
                #![trigger cm_contains(before, c)]
                #![trigger cm_contains(orig0, c)]
                cm_contains(before, c) == (cm_contains(orig0, c) && !in_run(
                    idx as int,
                    width as int,
                    c,
                )));
        }
        cube_index.remove_cell(idx + width);
        proof {
            assert(forall|c: int|
                #![trigger cm_contains(before, c)]
                #![trigger cm_contains(orig0, c)]
                cm_contains(before, c) == (cm_contains(orig0, c) && !in_run(
                    idx as int,
                    width as int,
                    c,
                )));
            assert(forall|c: int|
                in_run(idx as int, width as int + 1, c) ==> #[trigger] cm_contains(orig0, c));
            assert(forall|c: int|
                #![trigger cm_contains(cube_index.cells@, c)]
                #![trigger cm_contains(orig0, c)]
                cm_contains(cube_index.cells@, c) == (cm_contains(orig0, c) && !in_run(
                    idx as int,
                    width as int + 1,
                    c,
                )));
        }
        width = width + 1;
    }
    width
}

/// Grows the `width`-wide run at `idx` downward while every cell of the
/// next full-width row is in the working set, removing each accepted row;
/// returns the block's height.
fn grow_down(cube_index: &mut CubeMap, idx: usize, width: usize) -> (h: usize)
    requires
        old(cube_index).wf(),
        idx < REGION_TILES_COUNT,
        1 <= width,
        idx + width <= REGION_TILES_COUNT,
    ensures
        final(cube_index).wf(),
        1 <= h,
        forall|c: int|
            in_rows(idx as int, width as int, h as int, c) ==> #[trigger] cm_contains(
                old(cube_index).cells@,
                c,
            ),
        forall|c: int|
            #![trigger cm_contains(final(cube_index).cells@, c)]
            #![trigger cm_contains(old(cube_index).cells@, c)]
            cm_contains(final(cube_index).cells@, c) == (cm_contains(old(cube_index).cells@, c)
                && !in_rows(idx as int, width as int, h as int, c)),
        final(cube_index).cells@.len() <= old(cube_index).cells@.len(),
        exists|c: int|
            row_start(idx as int, h as int) <= c < row_start(idx as int, h as int) + width && !(
            #[trigger] cm_contains(final(cube_index).cells@, c)),
{
    let ghost orig0 = old(cube_index).cells@;
    let mut height: usize = 1;
    let mut candidate: usize = idx + REGION_WIDTH;
    loop
        invariant
            cube_index.wf(),
            1 <= height,
            idx < REGION_TILES_COUNT,
            1 <= width,
            idx + width <= REGION_TILES_COUNT,
            candidate == idx + height * REGION_WIDTH,
            candidate <= REGION_TILES_COUNT + REGION_WIDTH,
            forall|c: int|
                in_rows(idx as int, width as int, height as int, c) ==> #[trigger] cm_contains(
                    orig0,
                    c,
                ),
            forall|c: int|
                #![trigger cm_contains(cube_index.cells@, c)]
                #![trigger cm_contains(orig0, c)]
                cm_contains(cube_index.cells@, c) == (cm_contains(orig0, c)
                    && !in_rows(idx as int, width as int, height as int, c)),
            cube_index.cells@.len() <= orig0.len(),
        ensures
            final(cube_index).wf(),
            1 <= height,
            forall|c: int|
                in_rows(idx as int, width as int, height as int, c) ==> #[trigger] cm_contains(
                    orig0,
                    c,
                ),
            forall|c: int|
                #![trigger cm_contains(cube_index.cells@, c)]
                #![trigger cm_contains(orig0, c)]
                cm_contains(cube_index.cells@, c) == (cm_contains(orig0, c)
                    && !in_rows(idx as int, width as int, height as int, c)),
            cube_index.cells@.len() <= orig0.len(),
            exists|c: int|
                row_start(idx as int, height as int) <= c < row_start(idx as int, height as int)
                    + width && !(#[trigger] cm_contains(cube_index.cells@, c)),
        decreases cube_index.cells@.len(),
    {
        // Is the next full-width row entirely present?
        let mut i: usize = 0;
        while i < width && cube_index.contains(candidate + i)
            invariant
                i <= width,
                candidate + width <= REGION_TILES_COUNT + REGION_WIDTH + REGION_TILES_COUNT,
                forall|c: int|
                    candidate <= c < candidate + i ==> #[trigger] cm_contains(
                        cube_index.cells@,
                        c,
                    ),
            decreases width - i,
        {
            i = i + 1;
        }
        if i < width {
            proof {
                let w = candidate as int + i as int;
                assert(!cm_contains(cube_index.cells@, w));
                assert(row_start(idx as int, height as int) == candidate as int);
                assert(row_start(idx as int, height as int) <= w < row_start(
                    idx as int,
                    height as int,
                ) + width);
            }
            break ;
        }

        // Remove the accepted row.
        let ghost row_pre = cube_index.cells@;
        proof {
            assert(forall|k: int| 0 <= k < row_pre.len() ==> (#[trigger] row_pre[k]) < REGION_TILES_COUNT);
            assert(forall|c: int|
                cm_contains(row_pre, c) == (cm_contains(orig0, c) && !in_rows(
                    idx as int,
                    width as int,
                    height as int,
                    c,
                )));
        }
        let mut i2: usize = 0;
        while i2 < width
            invariant
                i2 <= width,
                cube_index.wf(),
                candidate + width <= REGION_TILES_COUNT + REGION_WIDTH + REGION_TILES_COUNT,
                forall|c: int|
                    candidate + i2 <= c < candidate + width ==> #[trigger] cm_contains(
                        cube_index.cells@,
                        c,
                    ),
                forall|c: int|
                    #![trigger cm_contains(cube_index.cells@, c)]
                    #![trigger cm_contains(row_pre, c)]
                    cm_contains(cube_index.cells@, c) == (cm_contains(row_pre, c) && !(candidate
                        <= c < candidate + i2)),
                cube_index.cells@.len() == row_pre.len() - i2,
            decreases width - i2,
        {
            cube_index.remove_cell(candidate + i2);
            i2 = i2 + 1;
        }

        proof {
            // The row just removed is row `height` of the block, so the
            // removed-rows account extends by exactly that row.
            assert forall|c: int|
                in_rows(idx as int, width as int, (height + 1) as int, c) == (in_rows(
                idx as int,
                width as int,
                height as int,
                c,
            ) || (candidate <= c < candidate + width)) by {
                if in_rows(idx as int, width as int, (height + 1) as int, c) {
                    let j = choose|j: int|
                        1 <= j < height + 1 && (#[trigger] row_start(idx as int, j)) <= c
                            < row_start(idx as int, j) + width;
                    if j < height {
                        assert(in_rows(idx as int, width as int, height as int, c));
                    } else {
                        assert(row_start(idx as int, j) == candidate);
                    }
                }
                if in_rows(idx as int, width as int, height as int, c) {
                    let j = choose|j: int|
                        1 <= j < height && (#[trigger] row_start(idx as int, j)) <= c < row_start(
                        idx as int,
                        j,
                        ) + width;
                    assert(in_rows(idx as int, width as int, (height + 1) as int, c));
                }
                if candidate <= c < candidate + width {
                    let j = height as int;
                    assert(row_start(idx as int, j) <= c < row_start(idx as int, j) + width);
                    assert(in_rows(idx as int, width as int, (height + 1) as int, c));
                }
            }
            // A removed row cell was present when the row was scanned, so
            // it was present at entry.
            assert(cm_contains(row_pre, candidate as int));
            let k = choose|k: int| 0 <= k < row_pre.len() && row_pre[k] == candidate as int;
            assert(candidate < REGION_TILES_COUNT);
            assert forall|c: int|
                in_rows(idx as int, width as int, height as int + 1, c) implies cm_contains(
                orig0,
                c,
            ) by {
                if !in_rows(idx as int, width as int, height as int, c) {
                    assert(candidate <= c < candidate + width);
                    assert(cm_contains(row_pre, c));
                }
            }
            assert forall|c: int|
                cm_contains(cube_index.cells@, c) == (cm_contains(orig0, c)
                    && !in_rows(idx as int, width as int, height as int + 1, c)) by {
                assert(cm_contains(cube_index.cells@, c) == (cm_contains(row_pre, c) && !(candidate
                    <= c < candidate + width)));
                assert(cm_contains(row_pre, c) == (cm_contains(orig0, c)
                    && !in_rows(idx as int, width as int, height as int, c)));
            }
        }

        height = height + 1;
        candidate = candidate + REGION_WIDTH;
    }
    proof {
        let c = choose|c: int|
            row_start(idx as int, height as int) <= c < row_start(idx as int, height as int)
                + width && !(#[trigger] cm_contains(cube_index.cells@, c));
        assert(row_start(idx as int, height as int) <= c < row_start(idx as int, height as int)
            + width && !cm_contains(cube_index.cells@, c));
    }
    height
}

/// One pass of the greedy mesher: repeatedly takes the smallest remaining
/// index, grows its run rightward and downward, and emits one primitive per
/// run, until the working set is empty.
fn greedy_rects(cube_index: &mut CubeMap) -> (r: Vec<MeshPrim>)
    requires
        old(cube_index).wf(),
    ensures
        final(cube_index).wf(),
        final(cube_index).cells@.len() == 0,
        greedy_post(old(cube_index).cells@, r@),
{
    let ghost orig = old(cube_index).cells@;
    let mut prims: Vec<MeshPrim> = Vec::new();
    while cube_index.len() > 0
        invariant
            cube_index.wf(),
            forall|c: int| cm_contains(cube_index.cells@, c) ==> cm_contains(orig, c),
            forall|c: int|
                cm_contains(orig, c) ==> cm_contains(cube_index.cells@, c) || exists|a: int|
                    0 <= a < prims@.len() && #[trigger] prim_covers(prims@[a], c),
            forall|a: int, c: int|
                0 <= a < prims@.len() && #[trigger] prim_covers(prims@[a], c) ==> cm_contains(
                    orig,
                    c,
                ) && !cm_contains(cube_index.cells@, c),
            forall|a1: int, a2: int, c: int|
                0 <= a1 < a2 < prims@.len() ==> !(#[trigger] prim_covers(prims@[a1], c)
                    && #[trigger] prim_covers(prims@[a2], c)),
            prims@.len() + cube_index.cells@.len() <= orig.len(),
            orig == old(cube_index).cells@,
        decreases cube_index.cells@.len(),
    {
        let ghost s0 = cube_index.cells@;
        let idx = cube_index.take_min();
        let ghost s1 = cube_index.cells@;
        let (x, y, z) = crate::idxmap(idx);
        let width = grow_right(cube_index, idx);
        let ghost s2 = cube_index.cells@;
        let height = grow_down(cube_index, idx, width);
        let ghost s3 = cube_index.cells@;
        let p = MeshPrim { x, y, z, w: width, h: height };

        proof {
            let base = crate::spec_mapidx(p.x as int, p.y as int, p.z as int);
            assert(base == idx as int);
            // What the new primitive covers is exactly what this iteration
            // removed: the anchor, its rightward run, and the rows below.
            assert forall|c: int|
                prim_covers(p, c) == (c == idx as int || in_run(idx as int, width as int, c)
                    || in_rows(idx as int, width as int, height as int, c)) by {
                if prim_covers(p, c) {
                    let j = choose|j: int|
                        0 <= j < p.h && (#[trigger] row_start(base, j)) <= c < row_start(base, j)
                            + p.w;
                    if j == 0 {
                        assert(c == idx as int || in_run(idx as int, width as int, c));
                    } else {
                        assert(in_rows(idx as int, width as int, height as int, c));
                    }
                }
                if c == idx as int || in_run(idx as int, width as int, c) {
                    let j = 0int;
                    assert(row_start(base, j) <= c < row_start(base, j) + p.w);
                    assert(prim_covers(p, c));
                }
                if in_rows(idx as int, width as int, height as int, c) {
                    let j = choose|j: int|
                        1 <= j < height && (#[trigger] row_start(idx as int, j)) <= c < row_start(
                        idx as int,
                        j,
                        ) + width;
                    assert(row_start(base, j) <= c < row_start(base, j) + p.w);
                    assert(prim_covers(p, c));
                }
            }
            // Everything the new primitive covers was in the set at the
            // start of the iteration, and is gone now.
            assert forall|c: int|
                cm_contains(s3, c) == (cm_contains(s0, c) && !prim_covers(p, c)) by {
                assert(cm_contains(s3, c) == (cm_contains(s2, c) && !in_rows(
                    idx as int,
                    width as int,
                    height as int,
                    c,
                )));
                assert(cm_contains(s2, c) == (cm_contains(s1, c) && !in_run(
                    idx as int,
                    width as int,
                    c,
                )));
                assert(cm_contains(s1, c) == (cm_contains(s0, c) && c != idx as int));
            }
            assert forall|c: int| prim_covers(p, c) implies cm_contains(s0, c) by {
                if in_run(idx as int, width as int, c) {
                    assert(cm_contains(s1, c));
                }
                if in_rows(idx as int, width as int, height as int, c) {
                    assert(cm_contains(s2, c));
                    assert(cm_contains(s1, c));
                }
            }
        }

        let ghost prims_pre = prims@;
        prims.push(p);
        proof {
            assert(prims@ == prims_pre.push(p));
            assert forall|a: int, c: int|
                0 <= a < prims@.len() && #[trigger] prim_covers(prims@[a], c) implies cm_contains(
                orig,
                c,
            ) && !cm_contains(s3, c) by {
                if a < prims_pre.len() {
                    assert(prims@[a] == prims_pre[a]);
                    assert(!cm_contains(s0, c));
                } else {
                    assert(prims@[a] == p);
                    assert(cm_contains(s0, c));
                }
            }
            assert forall|c: int|
                cm_contains(orig, c) implies cm_contains(s3, c) || exists|a: int|
                    0 <= a < prims@.len() && #[trigger] prim_covers(prims@[a], c) by {
                if cm_contains(orig, c) && !cm_contains(s3, c) {
                    if cm_contains(s0, c) {
                        if prim_covers(p, c) {
                            assert(prims@[prims@.len() - 1] == p);
                            assert(prim_covers(prims@[prims@.len() - 1], c));
                        } else {
                            assert(false);
                        }
                    } else {
                        let a = choose|a: int|
                            0 <= a < prims_pre.len() && #[trigger] prim_covers(prims_pre[a], c);
                        assert(prims@[a] == prims_pre[a]);
                        assert(prim_covers(prims@[a], c));
                    }
                }
            }
            assert forall|a1: int, a2: int, c: int|
                0 <= a1 < a2 < prims@.len() implies !(#[trigger] prim_covers(prims@[a1], c)
                    && #[trigger] prim_covers(prims@[a2], c)) by {
                if a2 < prims_pre.len() {
                    assert(prims@[a1] == prims_pre[a1] && prims@[a2] == prims_pre[a2]);
                } else {
                    assert(prims@[a2] == p);
                    assert(prims@[a1] == prims_pre[a1]);
                    if prim_covers(prims_pre[a1], c) {
                        assert(!cm_contains(s0, c));
                    }
                }
            }
        }
    }
    prims
}

/// Covers the working set's tile indices with rectangular cube primitives,
/// one tile thick, consuming the set. The primitives cover exactly the
/// input indices, never overlap, and number at most the input's size.
pub fn greedy_cubes(cube_index: &mut CubeMap) -> (r: Vec<MeshPrim>)
    requires
        old(cube_index).wf(),
    ensures
        final(cube_index).wf(),
        final(cube_index).cells@.len() == 0,
        greedy_post(old(cube_index).cells@, r@),
{
    greedy_rects(cube_index)
}

/// Covers the working set's tile indices with rectangular floor primitives,
/// consuming the set; the covering discipline is the same as for cubes.
pub fn greedy_floors(cube_index: &mut CubeMap) -> (r: Vec<MeshPrim>)
    requires
        old(cube_index).wf(),
    ensures
        final(cube_index).wf(),
        final(cube_index).cells@.len() == 0,
        greedy_post(old(cube_index).cells@, r@),
{
    greedy_rects(cube_index)
}

} // verus!
