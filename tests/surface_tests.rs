use voxel_terrain::surface::{calculate_chunk_size, cube_configuration, is_surface_voxel, surface_topology};

fn lattice(n: usize, inside: impl Fn(usize, usize, usize) -> bool) -> Vec<bool> {
    let mut v = Vec::new();
    for x in 0..n {
        for y in 0..n {
            for z in 0..n {
                v.push(inside(x, y, z));
            }
        }
    }
    v
}

#[test]
fn resolution_halves_per_level_down_to_the_floor() {
    assert_eq!(calculate_chunk_size(0), 128);
    assert_eq!(calculate_chunk_size(1), 64);
    assert_eq!(calculate_chunk_size(2), 32);
    assert_eq!(calculate_chunk_size(3), 16);
    assert_eq!(calculate_chunk_size(4), 8);
    assert_eq!(calculate_chunk_size(5), 8);
    assert_eq!(calculate_chunk_size(usize::MAX), 8);
}

#[test]
fn one_sided_cells_are_not_surface_cells() {
    let all_in = lattice(3, |_, _, _| true);
    let none_in = lattice(3, |_, _, _| false);
    assert!(!is_surface_voxel(3, &all_in, 0, 0, 0));
    assert!(!is_surface_voxel(3, &none_in, 1, 1, 1));
    let one_corner = lattice(3, |x, y, z| (x, y, z) == (2, 2, 2));
    assert!(is_surface_voxel(3, &one_corner, 1, 1, 1));
    assert!(!is_surface_voxel(3, &one_corner, 0, 0, 0));
}

#[test]
fn field_entirely_above_ground_has_no_surface() {
    let none_in = lattice(5, |_, _, _| false);
    let t = surface_topology(5, &none_in);
    assert!(t.cells.is_empty());
    assert!(t.indices.is_empty());
}

#[test]
fn flat_ground_makes_a_single_sheet() {
    let plane = lattice(3, |_, y, _| y == 0);
    let t = surface_topology(3, &plane);
    assert_eq!(t.cells, vec![(0, 0, 0), (0, 0, 1), (1, 0, 0), (1, 0, 1)]);
    assert_eq!(t.indices, vec![3, 0, 1, 3, 2, 0]);
}

#[test]
fn larger_sheet_has_two_triangles_per_inner_edge() {
    let plane = lattice(5, |_, y, _| y <= 1);
    let t = surface_topology(5, &plane);
    // cells with y == 1 straddle: a 4 x 4 sheet
    assert_eq!(t.cells.len(), 16);
    assert!(t.cells.iter().all(|c| c.1 == 1));
    assert_eq!(t.indices.len(), 3 * 2 * 9);
    assert!(t.indices.iter().all(|&i| (i as usize) < t.cells.len()));
}

#[test]
fn extraction_is_repeatable() {
    let blob = lattice(6, |x, y, z| (x * x + y * y + z * z) < 14);
    let a = surface_topology(6, &blob);
    let b = surface_topology(6, &blob);
    assert_eq!(a.cells.len(), b.cells.len());
    assert_eq!(a.indices, b.indices);
    assert_eq!(a.indices.len() % 3, 0);
}

#[test]
fn full_cell_emits_no_vertex() {
    let blob = lattice(4, |x, _, _| x <= 1);
    let t = surface_topology(4, &blob);
    // cells at x == 0 have every corner inside
    assert!(t.cells.iter().all(|c| c.0 == 1));
    assert_eq!(t.cells.len(), 9);
}

#[test]
fn configuration_sets_one_bit_per_inner_corner() {
    let one_corner = lattice(3, |x, y, z| (x, y, z) == (2, 2, 2));
    assert_eq!(cube_configuration(3, &one_corner, 1, 1, 1), 64);
    assert_eq!(cube_configuration(3, &one_corner, 0, 0, 0), 0);
    let all_in = lattice(3, |_, _, _| true);
    assert_eq!(cube_configuration(3, &all_in, 1, 0, 1), 255);
    let lower = lattice(3, |_, y, _| y == 0);
    assert_eq!(cube_configuration(3, &lower, 0, 0, 0), 15);
    let near_z = lattice(3, |_, _, z| z == 1);
    assert_eq!(cube_configuration(3, &near_z, 0, 1, 0), 2 + 4 + 32 + 64);
}

#[test]
fn flat_configurations_match_surface_cells() {
    let blob = lattice(5, |x, y, z| x + y * 2 + z * 3 < 9);
    for x in 0..4 {
        for y in 0..4 {
            for z in 0..4 {
                let c = cube_configuration(5, &blob, x, y, z);
                assert_eq!(c == 0 || c == 255, !is_surface_voxel(5, &blob, x, y, z));
            }
        }
    }
}
