use voxel_terrain::greedy::Quad;
use voxel_terrain::mesh::Mesh;

fn quad(axis: usize, flip: bool) -> Quad {
    Quad { axis, slice: 2, u: 1, v: 0, width: 3, height: 2, flip, block_type: 9 }
}

#[test]
fn mesh_lays_out_four_vertices_and_two_triangles_per_quad() {
    let m = Mesh::new(vec![quad(1, false), quad(0, true)], 8);
    assert_eq!(m.vertices().len(), 8);
    assert_eq!(m.indices(), &vec![0, 1, 2, 2, 1, 3, 4, 5, 6, 6, 5, 7]);
    assert_eq!(m.block_type(), &vec![9; 8]);
    assert!(!m.is_buffered());
}

#[test]
fn quad_corners_follow_orientation() {
    // axis 1 (y): u runs along z, v along x.
    let m = Mesh::new(vec![quad(1, false)], 8);
    assert_eq!(m.vertices(), &vec![(0, 2, 4), (0, 2, 1), (2, 2, 4), (2, 2, 1)]);
    assert_eq!(m.normals(), &vec![(0, -1, 0); 4]);
    let f = Mesh::new(vec![quad(0, true)], 8);
    // axis 0 (x): u runs along y, v along z.
    assert_eq!(f.vertices(), &vec![(2, 1, 0), (2, 4, 0), (2, 1, 2), (2, 4, 2)]);
    assert_eq!(f.normals(), &vec![(1, 0, 0); 4]);
}

#[test]
fn mesh_is_buffered_once() {
    let mut m = Mesh::new(vec![quad(2, true)], 8);
    assert_eq!(m.vertex_array(), None);
    m.set_buffered(17);
    assert!(m.is_buffered());
    assert_eq!(m.vertex_array(), Some(17));
    assert_eq!(m.quads().len(), 1);
}
