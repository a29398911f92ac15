use voxel_terrain::bounds::{ChunkBounds, CHUNK_SIZE};

#[test]
fn parse_origin_chunk() {
    let b = ChunkBounds::parse(0, 0, 0);
    assert_eq!(b.min, (0, 0, 0));
    assert_eq!(b.max, (128, 128, 128));
    assert_eq!(CHUNK_SIZE, 128);
}

#[test]
fn parse_rounds_towards_negative_infinity() {
    let b = ChunkBounds::parse(-1, 130, 255);
    assert_eq!(b.min, (-128, 128, 128));
    assert_eq!(b.max, (0, 256, 256));
    let c = ChunkBounds::parse(-128, -129, 127);
    assert_eq!(c.min, (-128, -256, 0));
    assert_eq!(c.max, (0, -128, 128));
}

#[test]
fn parse_near_the_lattice_limits() {
    let lo = ChunkBounds::parse(i32::MIN, 0, 0);
    assert_eq!(lo.min.0, i32::MIN);
    assert_eq!(lo.max.0, i32::MIN + 128);
    let hi = ChunkBounds::parse(i32::MAX - 128, 0, 0);
    assert_eq!(hi.max.0, i32::MAX - 127);
}

#[test]
fn contains_is_half_open() {
    let b = ChunkBounds::parse(5, 5, 5);
    assert!(b.contains(0, 0, 0));
    assert!(b.contains(127, 127, 127));
    assert!(!b.contains(128, 0, 0));
    assert!(!b.contains(0, -1, 0));
    assert!(!b.contains(0, 0, 128));
}

#[test]
fn bounds_tile_the_lattice() {
    let points = [(0, 0, 0), (127, -1, 64), (-300, 5, 999), (128, 128, -128), (-1, -1, -1)];
    for p in points.iter() {
        let b = ChunkBounds::parse(p.0, p.1, p.2);
        assert!(b.contains(p.0, p.1, p.2));
        assert_eq!(b.max.0 - b.min.0, 128);
        for q in points.iter() {
            let other = ChunkBounds::parse(q.0, q.1, q.2);
            assert_eq!(other.contains(p.0, p.1, p.2), other == b);
        }
    }
}

#[test]
fn of_chunk_matches_parse() {
    assert_eq!(ChunkBounds::of_chunk(-2, 0, 3), ChunkBounds::parse(-200, 5, 400));
}

#[test]
fn chunk_bounds_on_line_in_order_of_entry() {
    let points = vec![(10, 0, 0), (130, 0, 0), (140, 0, 0), (260, 0, 0), (-5, 0, 0), (135, 1, 1)];
    let r = ChunkBounds::get_chunk_bounds_on_line((0, 0, 0), &points);
    assert_eq!(
        r,
        vec![
            ChunkBounds::of_chunk(1, 0, 0),
            ChunkBounds::of_chunk(2, 0, 0),
            ChunkBounds::of_chunk(-1, 0, 0),
            ChunkBounds::of_chunk(0, 0, 0),
        ]
    );
}

#[test]
fn chunk_bounds_on_line_without_points() {
    let r = ChunkBounds::get_chunk_bounds_on_line((-1, 0, 0), &Vec::new());
    assert_eq!(r, vec![ChunkBounds::of_chunk(-1, 0, 0)]);
}
