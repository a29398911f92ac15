use voxel_terrain::bounds::ChunkBounds;
use voxel_terrain::store::ChunkStore;
use voxel_terrain::streaming::chunkloader;

#[test]
fn first_rings_of_a_positive_quadrant() {
    assert_eq!(chunkloader(0, 1, 1), vec![]);
    assert_eq!(chunkloader(1, 1, 1), vec![(1, 0, 0), (1, 0, 1)]);
    assert_eq!(
        chunkloader(2, 1, 1),
        vec![(1, 0, 0), (1, 0, 1), (2, 0, 0), (2, 0, 1), (2, 0, -1), (2, 0, 2)]
    );
}

#[test]
fn negative_quadrant_walks_across_x() {
    assert_eq!(chunkloader(1, -1, -1), vec![(0, 0, -1), (-1, 0, -1), (1, 0, -1)]);
    assert_eq!(chunkloader(1, 1, -1), vec![(0, 0, 1), (-1, 0, 1), (1, 0, 1)]);
}

#[test]
fn radius_five_quadrant_has_distinct_chunks() {
    for &(xd, zd) in [(1, 1), (-1, 1), (1, -1), (-1, -1)].iter() {
        let chunks = chunkloader(5, xd, zd);
        assert_eq!(chunks.len(), if zd > 0 { 30 } else { 35 });
        let mut store: ChunkStore<(i32, i32, i32)> = ChunkStore::new();
        for c in chunks.iter() {
            store.update(Some((ChunkBounds::of_chunk(c.0, c.1, c.2), *c)));
        }
        assert_eq!(store.len(), chunks.len());
        let keys = store.keys();
        for (i, a) in keys.iter().enumerate() {
            for b in keys.iter().skip(i + 1) {
                assert!(a != b);
                assert!(!b.contains(a.min.0, a.min.1, a.min.2));
            }
        }
    }
}

#[test]
fn store_replaces_chunks_under_equal_bounds() {
    let mut store: ChunkStore<u32> = ChunkStore::new();
    let b = ChunkBounds::of_chunk(1, 0, 2);
    store.insert(b, 1);
    store.insert(ChunkBounds::of_chunk(0, 0, 0), 2);
    store.insert(b, 3);
    assert_eq!(store.len(), 2);
    assert_eq!(store.get(&b), Some(&3));
    assert!(store.contains_key(&ChunkBounds::of_chunk(0, 0, 0)));
    assert!(!store.contains_key(&ChunkBounds::of_chunk(0, 1, 0)));
    assert_eq!(store.get(&ChunkBounds::of_chunk(5, 5, 5)), None);
}

#[test]
fn update_without_arrival_changes_nothing() {
    let mut store: ChunkStore<u32> = ChunkStore::new();
    store.update(None);
    assert_eq!(store.len(), 0);
    store.update(Some((ChunkBounds::of_chunk(0, 0, 0), 4)));
    assert_eq!(store.get(&ChunkBounds::of_chunk(0, 0, 0)), Some(&4));
}
