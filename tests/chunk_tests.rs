use voxel_terrain::block_chunk::{Chunk, EditIntent, PLACED_BLOCK_TYPE, TERRAIN_BLOCK_TYPE};
use voxel_terrain::bounds::{ChunkBounds, CHUNK_SIZE};
use voxel_terrain::store::ChunkStore;
use voxel_terrain::voxels::Block;

fn flat(height: i32) -> Vec<i32> {
    vec![height; CHUNK_SIZE * CHUNK_SIZE]
}

/// Number of exposed unit faces that the chunk's mesh covers.
fn face_area(c: &Chunk) -> usize {
    c.mesh().as_ref().unwrap().quads().iter().map(|q| q.width * q.height).sum()
}

#[test]
fn chunk_above_the_ground_is_empty() {
    let c = Chunk::new((0, 1, 0), &flat(-1));
    assert_eq!(c.mesh().as_ref().unwrap().quads().len(), 0);
    assert_eq!(c.mesh().as_ref().unwrap().vertices().len(), 0);
}

#[test]
fn flat_ground_makes_one_sheet_per_side() {
    let c = Chunk::new((0, 0, 0), &flat(63));
    assert_eq!(c.blocks().get(5, 63, 9), Some(Block::new(TERRAIN_BLOCK_TYPE)));
    assert_eq!(c.blocks().get(5, 64, 9), None);
    let mesh = c.mesh().as_ref().unwrap();
    // top, bottom and four sides, each merged into a single quad
    assert_eq!(mesh.quads().len(), 6);
    let top = mesh.quads().iter().find(|q| q.axis == 1 && q.slice == 64).unwrap();
    assert_eq!((top.width, top.height), (128, 128));
    assert!(top.flip);
    assert_eq!(mesh.indices().len(), 36);
}

#[test]
fn column_heights_follow_the_input() {
    let mut heights = flat(0);
    heights[3 * CHUNK_SIZE + 4] = 10;
    let c = Chunk::new((2, 0, -1), &heights);
    assert_eq!(c.blocks().get(3, 10, 4), Some(Block::new(TERRAIN_BLOCK_TYPE)));
    assert_eq!(c.blocks().get(3, 11, 4), None);
    assert_eq!(c.blocks().get(4, 1, 3), None);
    assert_eq!(c.get_bounds(), ChunkBounds::of_chunk(2, 0, -1));
    assert_eq!(c.position(), (2, 0, -1));
}

#[test]
fn removing_a_voxel_from_a_solid_cube() {
    let mut c = Chunk::new((0, 0, 0), &flat(127));
    assert_eq!(face_area(&c), 6 * 128 * 128);
    let ray: Vec<(i32, i32, i32)> = (0..20).map(|k| (5, 140 - k, 6)).collect();
    assert!(c.process_line(&ray, EditIntent::Remove));
    assert_eq!(c.blocks().get(5, 127, 6), None);
    // the top loses one face and the hole gains four walls and a floor
    assert_eq!(face_area(&c), 6 * 128 * 128 + 4);
}

#[test]
fn placing_fills_the_voxel_before_the_hit() {
    let mut c = Chunk::new((0, 0, 0), &flat(63));
    let ray: Vec<(i32, i32, i32)> = (0..10).map(|k| (8, 70 - k, 8)).collect();
    assert!(c.process_line(&ray, EditIntent::Place));
    assert_eq!(c.blocks().get(8, 64, 8), Some(Block::new(PLACED_BLOCK_TYPE)));
    assert_eq!(c.blocks().get(8, 65, 8), None);
}

#[test]
fn placing_needs_an_empty_voxel_before_the_hit() {
    let mut c = Chunk::new((0, 0, 0), &flat(63));
    let ray = vec![(8, 60, 8), (8, 59, 8)];
    assert!(!c.process_line(&ray, EditIntent::Place));
    assert_eq!(c.blocks().get(0, 0, 0), Some(Block::new(TERRAIN_BLOCK_TYPE)));
}

#[test]
fn line_outside_the_chunk_changes_nothing() {
    let mut c = Chunk::new((0, 0, 0), &flat(63));
    let ray = vec![(200, 10, 8), (-3, 10, 8)];
    assert!(!c.process_line(&ray, EditIntent::Remove));
    assert_eq!(face_area(&c), 2 * 128 * 128 + 4 * 128 * 64);
}

#[test]
fn block_mesh_normals_are_unit_axis_vectors() {
    let mut heights = flat(20);
    heights[0] = 40;
    let c = Chunk::new((0, 0, 0), &heights);
    let mesh = c.mesh().as_ref().unwrap();
    assert!(!mesh.normals().is_empty());
    for n in mesh.normals() {
        assert_eq!(n.0 * n.0 + n.1 * n.1 + n.2 * n.2, 1);
    }
}

#[test]
fn store_edits_the_first_chunk_the_line_changes() {
    let mut store: ChunkStore<Chunk> = ChunkStore::new();
    let upper = Chunk::new((0, 1, 0), &flat(-1));
    let lower = Chunk::new((0, 0, 0), &flat(63));
    store.insert(upper.get_bounds(), upper);
    store.insert(lower.get_bounds(), lower);
    let ray: Vec<(i32, i32, i32)> = (0..100).map(|k| (4, 150 - k, 4)).collect();
    assert!(store.process_line((4, 150, 4), &ray, EditIntent::Remove));
    let edited = store.get(&ChunkBounds::of_chunk(0, 0, 0)).unwrap();
    assert_eq!(edited.blocks().get(4, 63, 4), None);
    assert_eq!(edited.blocks().get(4, 62, 4), Some(Block::new(TERRAIN_BLOCK_TYPE)));
    let missing: Vec<(i32, i32, i32)> = (0..10).map(|k| (4, 900 - k, 4)).collect();
    assert!(!store.process_line((4, 900, 4), &missing, EditIntent::Remove));
}

#[test]
fn store_edit_prefers_the_hit_in_the_origin_chunk() {
    let mut store: ChunkStore<Chunk> = ChunkStore::new();
    let ground = Chunk::new((0, 0, 0), &flat(63));
    let below = Chunk::new((0, -1, 0), &flat(127));
    store.insert(ground.get_bounds(), ground);
    store.insert(below.get_bounds(), below);
    let ray: Vec<(i32, i32, i32)> = (0..140).map(|k| (4, 70 - k, 4)).collect();
    assert!(store.process_line((4, 70, 4), &ray, EditIntent::Remove));
    let origin = store.get(&ChunkBounds::of_chunk(0, 0, 0)).unwrap();
    assert_eq!(origin.blocks().get(4, 63, 4), None);
    let lower = store.get(&ChunkBounds::of_chunk(0, -1, 0)).unwrap();
    assert_eq!(lower.blocks().get(4, 127, 4), Some(Block::new(TERRAIN_BLOCK_TYPE)));
}
