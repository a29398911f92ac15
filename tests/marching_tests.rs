use voxel_terrain::marching::{generate_mesh, get_triangulation, march_cube};

const CORNERS: [(u32, u32, u32); 8] =
    [(0, 0, 0), (0, 0, 1), (1, 0, 1), (1, 0, 0), (0, 1, 0), (0, 1, 1), (1, 1, 1), (1, 1, 0)];
const EDGES: [(usize, usize); 12] =
    [(0, 1), (1, 2), (2, 3), (3, 0), (4, 5), (5, 6), (6, 7), (7, 4), (0, 4), (1, 5), (2, 6), (3, 7)];

fn lattice(n: usize, inside: impl Fn(usize, usize, usize) -> bool) -> Vec<bool> {
    let mut v = Vec::new();
    for x in 0..n {
        for y in 0..n {
            for z in 0..n {
                v.push(inside(x, y, z));
            }
        }
    }
    v
}

#[test]
fn every_row_uses_exactly_the_sign_changing_edges() {
    for c in 0..=255u8 {
        let row = get_triangulation(c);
        assert_eq!(row.len() % 3, 0);
        assert!(row.len() <= 15);
        for (e, &(a, b)) in EDGES.iter().enumerate() {
            let crosses = ((c >> a) & 1) != ((c >> b) & 1);
            assert_eq!(row.contains(&(e as u8)), crosses, "configuration {} edge {}", c, e);
        }
    }
    assert!(get_triangulation(0).is_empty());
    assert!(get_triangulation(255).is_empty());
}

#[test]
fn corners_follow_the_configuration_bits() {
    assert_eq!(CORNERS[2], (1, 0, 1));
    assert_eq!(CORNERS[7], (1, 1, 0));
}

#[test]
fn single_inner_corner_gives_one_triangle_at_edge_midpoints() {
    let one_corner = lattice(3, |x, y, z| (x, y, z) == (2, 2, 2));
    let tris = march_cube(3, &one_corner, 1, 1, 1);
    assert_eq!(tris, vec![((4, 3, 4), (4, 4, 3), (3, 4, 4))]);
    assert!(march_cube(3, &one_corner, 0, 0, 0).is_empty());
}

#[test]
fn flat_ground_gives_one_sheet_of_triangles() {
    let plane = lattice(3, |_, y, _| y == 0);
    let tris = generate_mesh(3, &plane);
    assert_eq!(tris.len(), 8);
    for t in tris.iter() {
        assert_eq!((t.0 .1, t.1 .1, t.2 .1), (1, 1, 1));
    }
    let empty = lattice(4, |_, _, _| false);
    assert!(generate_mesh(4, &empty).is_empty());
    let full = lattice(4, |_, _, _| true);
    assert!(generate_mesh(4, &full).is_empty());
}
