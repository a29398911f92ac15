use voxel_terrain::greedy::{greedy_quads, Quad};
use voxel_terrain::voxels::{Block, BlockGrid};

fn solid(g: &BlockGrid, x: i64, y: i64, z: i64) -> Option<u32> {
    let n = g.size() as i64;
    if x < 0 || y < 0 || z < 0 || x >= n || y >= n || z >= n {
        return None;
    }
    g.get(x as usize, y as usize, z as usize).map(|b| b.type_id)
}

fn axis_point(d: usize, t: i64, i: i64, j: i64) -> (i64, i64, i64) {
    match d {
        0 => (t, i, j),
        1 => (j, t, i),
        _ => (i, j, t),
    }
}

/// Checks every face position against the quads: exposed faces are covered
/// exactly once with the right orientation and type, others not at all.
fn check_exact_cover(g: &BlockGrid, quads: &[Quad]) -> usize {
    let n = g.size() as i64;
    let mut exposed_count = 0;
    for d in 0..3usize {
        for s in 0..=n {
            for i in 0..n {
                for j in 0..n {
                    let a = axis_point(d, s - 1, i, j);
                    let b = axis_point(d, s, i, j);
                    let below = solid(g, a.0, a.1, a.2);
                    let above = solid(g, b.0, b.1, b.2);
                    let exposed = below.is_some() != above.is_some();
                    let covering: Vec<&Quad> = quads
                        .iter()
                        .filter(|q| {
                            q.axis == d
                                && q.slice as i64 == s
                                && (q.u as i64) <= i
                                && i < (q.u + q.width) as i64
                                && (q.v as i64) <= j
                                && j < (q.v + q.height) as i64
                        })
                        .collect();
                    if exposed {
                        exposed_count += 1;
                        assert_eq!(covering.len(), 1, "face {:?} covered {} times", (d, s, i, j), covering.len());
                        assert_eq!(covering[0].flip, above.is_none());
                        assert_eq!(covering[0].block_type, below.or(above).unwrap());
                    } else {
                        assert!(covering.is_empty());
                    }
                }
            }
        }
    }
    exposed_count
}

#[test]
fn empty_grid_has_no_quads() {
    let g = BlockGrid::new(4);
    assert!(greedy_quads(&g).is_empty());
}

#[test]
fn single_block_has_six_unit_quads() {
    let mut g = BlockGrid::new(4);
    g.set(1, 2, 3, Some(Block::new(7)));
    let quads = greedy_quads(&g);
    assert_eq!(quads.len(), 6);
    assert!(quads.iter().all(|q| q.width == 1 && q.height == 1 && q.block_type == 7));
    assert_eq!(check_exact_cover(&g, &quads), 6);
}

#[test]
fn full_grid_merges_each_side_into_one_quad() {
    let mut g = BlockGrid::new(3);
    for x in 0..3 {
        for y in 0..3 {
            for z in 0..3 {
                g.set(x, y, z, Some(Block::new(1)));
            }
        }
    }
    let quads = greedy_quads(&g);
    assert_eq!(quads.len(), 6);
    assert!(quads.iter().all(|q| q.width == 3 && q.height == 3));
    assert_eq!(check_exact_cover(&g, &quads), 54);
}

#[test]
fn different_types_are_not_merged() {
    let mut g = BlockGrid::new(2);
    g.set(0, 0, 0, Some(Block::new(1)));
    g.set(1, 0, 0, Some(Block::new(2)));
    let quads = greedy_quads(&g);
    assert_eq!(check_exact_cover(&g, &quads), 10);
    assert_eq!(quads.len(), 10);
}

#[test]
fn greedy_quads_cover_exposed_faces_exactly_once() {
    let mut g = BlockGrid::new(6);
    for x in 0..6usize {
        for y in 0..6usize {
            for z in 0..6usize {
                let v = (x * 7 + y * 3 + z * 5) % 4;
                if v != 0 {
                    g.set(x, y, z, Some(Block::new((v % 2) as u32 + 1)));
                }
            }
        }
    }
    let quads = greedy_quads(&g);
    let faces = check_exact_cover(&g, &quads);
    assert!(faces > 0);
    assert!(quads.len() <= faces);
}

#[test]
fn block_grid_reads_outside_as_empty() {
    let mut g = BlockGrid::new(2);
    g.set(1, 1, 1, Some(Block::new(3)));
    assert_eq!(g.get(1, 1, 1), Some(Block::new(3)));
    assert_eq!(g.get(2, 1, 1), None);
    assert_eq!(g.get(0, 0, 0), None);
    g.set(1, 1, 1, None);
    assert_eq!(g.get(1, 1, 1), None);
}

#[test]
fn greedy_takes_widest_run_then_tallest() {
    // an L shape in the z = 0 layer: row y = 0 has x = 0..3, row y = 1 has x = 0
    let mut g = BlockGrid::new(3);
    for x in 0..3 {
        g.set(x, 0, 0, Some(Block::new(1)));
    }
    g.set(0, 1, 0, Some(Block::new(1)));
    let quads = greedy_quads(&g);
    // plane z = 0 across axis 2: u runs along x, v along y
    let back: Vec<&Quad> = quads.iter().filter(|q| q.axis == 2 && q.slice == 0).collect();
    assert_eq!(back.len(), 2);
    assert_eq!((back[0].u, back[0].v, back[0].width, back[0].height), (0, 0, 3, 1));
    assert_eq!((back[1].u, back[1].v, back[1].width, back[1].height), (0, 1, 1, 1));
    assert_eq!(greedy_quads(&g), quads);
}
