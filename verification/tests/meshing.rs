use nox_terrain::greedy::greedy_cubes;
use nox_terrain::greedy::greedy_floors;
use nox_terrain::greedy::CubeMap;
use nox_terrain::greedy::MeshPrim;
use nox_terrain::mapidx;
use nox_terrain::REGION_WIDTH;
use std::collections::HashSet;

fn covered_cells(prims: &[MeshPrim]) -> Vec<usize> {
    let mut cells = Vec::new();
    for p in prims {
        let base = mapidx(p.x, p.y, p.z);
        for j in 0..p.h {
            for i in 0..p.w {
                cells.push(base + j * REGION_WIDTH + i);
            }
        }
    }
    cells
}

fn check_exact_cover(input: &[usize], prims: &[MeshPrim]) {
    let mut covered = covered_cells(prims);
    let covered_set: HashSet<usize> = covered.iter().copied().collect();
    // No overlaps: the same cell is never produced twice.
    assert_eq!(covered_set.len(), covered.len(), "primitives overlap");
    covered.sort();
    let mut expected: Vec<usize> = input.to_vec();
    expected.sort();
    expected.dedup();
    // No gaps, nothing extra.
    assert_eq!(covered, expected);
    // Never more primitives than input indices.
    assert!(prims.len() <= expected.len());
}

fn map_of(indices: &[usize]) -> CubeMap {
    let mut cm = CubeMap::new();
    for &i in indices {
        cm.insert(i);
    }
    cm
}

#[test]
fn greedy_merges_full_block() {
    // A 3-wide, 2-deep slab merges into a single primitive.
    let mut input = Vec::new();
    for y in 1..3usize {
        for x in 1..4usize {
            input.push(mapidx(x, y, 0));
        }
    }
    let mut cm = map_of(&input);
    let prims = greedy_cubes(&mut cm);
    assert_eq!(cm.len(), 0);
    assert_eq!(prims.len(), 1);
    assert_eq!(prims[0], MeshPrim { x: 1, y: 1, z: 0, w: 3, h: 2 });
    check_exact_cover(&input, &prims);
}

#[test]
fn greedy_stops_at_partial_rows() {
    // An L-shape: the top row merges, the lone cell below stays alone.
    let input = vec![mapidx(0, 0, 0), mapidx(1, 0, 0), mapidx(0, 1, 0)];
    let mut cm = map_of(&input);
    let prims = greedy_cubes(&mut cm);
    assert_eq!(prims.len(), 2);
    assert_eq!(prims[0], MeshPrim { x: 0, y: 0, z: 0, w: 2, h: 1 });
    assert_eq!(prims[1], MeshPrim { x: 0, y: 1, z: 0, w: 1, h: 1 });
    check_exact_cover(&input, &prims);
}

#[test]
fn greedy_covers_scattered_cells() {
    let input = vec![
        mapidx(0, 0, 0),
        mapidx(2, 0, 0),
        mapidx(5, 7, 3),
        mapidx(6, 7, 3),
        mapidx(5, 8, 3),
        mapidx(6, 8, 3),
        mapidx(63, 63, 63),
    ];
    let mut cm = map_of(&input);
    let prims = greedy_cubes(&mut cm);
    assert_eq!(cm.len(), 0);
    check_exact_cover(&input, &prims);
    // The 2x2 block merges into one primitive.
    assert!(prims.contains(&MeshPrim { x: 5, y: 7, z: 3, w: 2, h: 2 }));
}

#[test]
fn greedy_floors_covers_like_cubes() {
    let input = vec![mapidx(3, 3, 1), mapidx(4, 3, 1), mapidx(5, 3, 1)];
    let mut cm = map_of(&input);
    let floors = greedy_floors(&mut cm);
    assert_eq!(floors.len(), 1);
    assert_eq!(floors[0], MeshPrim { x: 3, y: 3, z: 1, w: 3, h: 1 });
    check_exact_cover(&input, &floors);
}

#[test]
fn greedy_on_empty_set_emits_nothing() {
    let mut cm = CubeMap::new();
    let prims = greedy_cubes(&mut cm);
    assert!(prims.is_empty());
}

#[test]
fn cube_map_insert_is_idempotent() {
    let mut cm = CubeMap::new();
    cm.insert(10);
    cm.insert(10);
    cm.insert(3);
    assert_eq!(cm.len(), 2);
    assert!(cm.contains(10));
    assert!(cm.contains(3));
    assert!(!cm.contains(7));
}

#[test]
fn greedy_covers_pseudorandom_set() {
    // A scattered pseudorandom set is covered exactly, with no overlaps.
    let mut input = Vec::new();
    let mut v: usize = 17;
    for _ in 0..500 {
        v = (v.wrapping_mul(1103515245).wrapping_add(12345)) % 262144;
        input.push(v);
    }
    let mut cm = map_of(&input);
    let prims = greedy_cubes(&mut cm);
    assert_eq!(cm.len(), 0);
    check_exact_cover(&input, &prims);
}

#[test]
fn greedy_respects_row_boundaries() {
    // A run reaching the row edge stops there: the cell at the start of
    // the next row gets its own primitive.
    let input = vec![mapidx(62, 0, 0), mapidx(63, 0, 0), mapidx(0, 1, 0)];
    let mut cm = map_of(&input);
    let prims = greedy_cubes(&mut cm);
    assert_eq!(prims.len(), 2);
    assert!(prims.contains(&MeshPrim { x: 62, y: 0, z: 0, w: 2, h: 1 }));
    assert!(prims.contains(&MeshPrim { x: 0, y: 1, z: 0, w: 1, h: 1 }));
    check_exact_cover(&input, &prims);
}
