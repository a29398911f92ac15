use vstd::prelude::*;

verus! {

/// Edge length of every chunk, in lattice units.
pub const CHUNK_SIZE: usize = 128;

/// `CHUNK_SIZE` as a signed lattice offset.
pub const CHUNK_SIZE_I32: i32 = 128;

/// The index of the chunk that holds lattice coordinate `p` on one axis
/// (division rounding towards negative infinity).
pub open spec fn chunk_coord(p: int) -> int {
    p / (CHUNK_SIZE as int)
}

/// A lattice coordinate whose chunk has a representable upper bound.
pub open spec fn in_world(p: int) -> bool {
    i32::MIN <= p && p + CHUNK_SIZE as int <= i32::MAX
}

/// A chunk coordinate whose bounds are representable.
pub open spec fn chunk_in_world(c: int) -> bool {
    i32::MIN <= c * (CHUNK_SIZE as int) && (c + 1) * (CHUNK_SIZE as int) <= i32::MAX
}

/// Axis-aligned bounds of one chunk: `max = min + CHUNK_SIZE` on each axis.
#[derive(Clone, Copy, Debug, Eq, Hash)]
pub struct ChunkBounds {
    pub min: (i32, i32, i32),
    pub max: (i32, i32, i32),
}

impl PartialEq for ChunkBounds {
    fn eq(&self, o: &ChunkBounds) -> (r: bool) {
        self.min.0 == o.min.0 && self.min.1 == o.min.1 && self.min.2 == o.min.2 && self.max.0
            == o.max.0 && self.max.1 == o.max.1 && self.max.2 == o.max.2
    }
}

impl vstd::std_specs::cmp::PartialEqSpecImpl for ChunkBounds {
    open spec fn obeys_eq_spec() -> bool {
        true
    }

    open spec fn eq_spec(&self, o: &ChunkBounds) -> bool {
        *self == *o
    }
}

/// The bounds of the chunk with chunk coordinates `(cx, cy, cz)`.
pub open spec fn bounds_of_chunk(cx: int, cy: int, cz: int) -> ChunkBounds {
    ChunkBounds {
        min: (
            (cx * CHUNK_SIZE as int) as i32,
            (cy * CHUNK_SIZE as int) as i32,
            (cz * CHUNK_SIZE as int) as i32,
        ),
        max: (
            ((cx + 1) * CHUNK_SIZE as int) as i32,
            ((cy + 1) * CHUNK_SIZE as int) as i32,
            ((cz + 1) * CHUNK_SIZE as int) as i32,
        ),
    }
}

/// The bounds of the chunk that holds lattice point `(x, y, z)`.
pub open spec fn bounds_at(x: int, y: int, z: int) -> ChunkBounds {
    bounds_of_chunk(chunk_coord(x), chunk_coord(y), chunk_coord(z))
}

pub open spec fn point_in_world(p: (i32, i32, i32)) -> bool {
    in_world(p.0 as int) && in_world(p.1 as int) && in_world(p.2 as int)
}

impl ChunkBounds {
    /// Half-open containment of a lattice point.
    pub open spec fn contains_spec(self, x: int, y: int, z: int) -> bool {
        self.min.0 <= x < self.max.0 && self.min.1 <= y < self.max.1 && self.min.2 <= z < self.max.2
    }

    /// The bounds have the extent of one chunk on each axis.
    pub open spec fn wf(self) -> bool {
        self.max.0 == self.min.0 + CHUNK_SIZE as int && self.max.1 == self.min.1
            + CHUNK_SIZE as int && self.max.2 == self.min.2 + CHUNK_SIZE as int
    }

    /// The bounds of the chunk that holds lattice point `(x, y, z)`.
    pub fn parse(x: i32, y: i32, z: i32) -> (r: ChunkBounds)
        requires
            in_world(x as int),
            in_world(y as int),
            in_world(z as int),
        ensures
            r == bounds_at(x as int, y as int, z as int),
            r.wf(),
            r.contains_spec(x as int, y as int, z as int),
    {
        let cx = floor_chunk(x);
        let cy = floor_chunk(y);
        let cz = floor_chunk(z);
        ChunkBounds::of_chunk(cx, cy, cz)
    }

    /// The bounds of the chunk with chunk coordinates `(cx, cy, cz)`.
    pub fn of_chunk(cx: i32, cy: i32, cz: i32) -> (r: ChunkBounds)
        requires
            chunk_in_world(cx as int),
            chunk_in_world(cy as int),
            chunk_in_world(cz as int),
        ensures
            r == bounds_of_chunk(cx as int, cy as int, cz as int),
            r.wf(),
    {
        ChunkBounds {
            min: (cx * CHUNK_SIZE_I32, cy * CHUNK_SIZE_I32, cz * CHUNK_SIZE_I32),
            max: ((cx + 1) * CHUNK_SIZE_I32, (cy + 1) * CHUNK_SIZE_I32, (cz + 1) * CHUNK_SIZE_I32),
        }
    }

    /// Whether the lattice point lies in these bounds (lower faces included,
    /// upper faces excluded).
    pub fn contains(&self, x: i32, y: i32, z: i32) -> (r: bool)
        ensures
            r == self.contains_spec(x as int, y as int, z as int),
    {
        x >= self.min.0 && x < self.max.0 && y >= self.min.1 && y < self.max.1 && z >= self.min.2
            && z < self.max.2
    }
}

/// The bounds of the chunks that a line enters after leaving the chunk of
/// its origin `start`, each once, in the order in which the points `pts`
/// first reach them.
pub open spec fn bounds_entered(start: (i32, i32, i32), pts: Seq<(i32, i32, i32)>) -> Seq<ChunkBounds>
    decreases pts.len(),
{
    if pts.len() == 0 {
        Seq::empty()
    } else {
        let prev = bounds_entered(start, pts.drop_last());
        let p = pts.last();
        let b = bounds_at(p.0 as int, p.1 as int, p.2 as int);
        if bounds_at(start.0 as int, start.1 as int, start.2 as int).contains_spec(
            p.0 as int,
            p.1 as int,
            p.2 as int,
        ) || prev.contains(b) {
            prev
        } else {
            prev.push(b)
        }
    }
}

/// The chunks entered are distinct and none is the origin's chunk.
pub proof fn lemma_bounds_entered_distinct(start: (i32, i32, i32), pts: Seq<(i32, i32, i32)>)
    requires
        point_in_world(start),
        forall|k: int| 0 <= k < pts.len() ==> point_in_world(#[trigger] pts[k]),
    ensures
        bounds_entered(start, pts).no_duplicates(),
        !bounds_entered(start, pts).contains(bounds_at(start.0 as int, start.1 as int, start.2 as int)),
    decreases pts.len(),
{
    if pts.len() > 0 {
        let pre = pts.drop_last();
        assert forall|k: int| 0 <= k < pre.len() implies point_in_world(#[trigger] pre[k]) by {
            assert(pre[k] == pts[k]);
        }
        lemma_bounds_entered_distinct(start, pre);
        let p = pts.last();
        assert(point_in_world(pts[pts.len() - 1]));
        let prev = bounds_entered(start, pre);
        let home = bounds_at(start.0 as int, start.1 as int, start.2 as int);
        let b = bounds_at(p.0 as int, p.1 as int, p.2 as int);
        if !(home.contains_spec(p.0 as int, p.1 as int, p.2 as int) || prev.contains(b)) {
            lemma_bounds_tile(p, start);
            assert(b != home);
            let r = prev.push(b);
            assert forall|i: int, j: int| 0 <= i < r.len() && 0 <= j < r.len() && i != j implies r[i] != r[j] by {
                if i < prev.len() && j < prev.len() {
                } else if i < prev.len() {
                    assert(r[i] == prev[i]);
                } else {
                    assert(r[j] == prev[j]);
                }
            }
            assert forall|i: int| 0 <= i < r.len() implies r[i] != home by {
                if i < prev.len() {
                    assert(r[i] == prev[i]);
                }
            }
        }
    }
}

impl ChunkBounds {
    /// The bounds of every chunk that a line passes, given the line's origin
    /// `start` and the lattice points `points` sampled along it: the chunks
    /// entered after leaving the origin's chunk, each once in order of first
    /// entry, then the origin's chunk.
    pub fn get_chunk_bounds_on_line(start: (i32, i32, i32), points: &Vec<(i32, i32, i32)>) -> (r: Vec<
        ChunkBounds,
    >)
        requires
            point_in_world(start),
            forall|k: int| 0 <= k < points@.len() ==> point_in_world(#[trigger] points@[k]),
        ensures
            r@ == bounds_entered(start, points@).push(
                bounds_at(start.0 as int, start.1 as int, start.2 as int),
            ),
            r@.no_duplicates(),
            r@.last() == bounds_at(start.0 as int, start.1 as int, start.2 as int),
    {
        let current = ChunkBounds::parse(start.0, start.1, start.2);
        let mut out: Vec<ChunkBounds> = Vec::new();
        let mut k: usize = 0;
        while k < points.len()
            invariant
                k <= points@.len(),
                current == bounds_at(start.0 as int, start.1 as int, start.2 as int),
                forall|k2: int| 0 <= k2 < points@.len() ==> point_in_world(#[trigger] points@[k2]),
                out@ == bounds_entered(start, points@.take(k as int)),
            decreases points@.len() - k,
        {
            let p = points[k];
            let chunk = ChunkBounds::parse(p.0, p.1, p.2);
            proof {
                assert(points@.take(k + 1).drop_last() =~= points@.take(k as int));
                assert(points@.take(k + 1).last() == p);
            }
            if !current.contains(p.0, p.1, p.2) && !list_has(&out, &chunk) {
                out.push(chunk);
            }
            k += 1;
        }
        proof {
            assert(points@.take(points@.len() as int) =~= points@);
            lemma_bounds_entered_distinct(start, points@);
        }
        let ghost entered = out@;
        out.push(current);
        proof {
            assert forall|i: int, j: int| 0 <= i < out@.len() && 0 <= j < out@.len() && i != j implies out@[i]
                != out@[j] by {
                if i < entered.len() && j < entered.len() {
                    assert(out@[i] == entered[i]);
                    assert(out@[j] == entered[j]);
                } else if i < entered.len() {
                    assert(out@[i] == entered[i]);
                } else {
                    assert(out@[j] == entered[j]);
                }
            }
        }
        out
    }
}

fn list_has(v: &Vec<ChunkBounds>, b: &ChunkBounds) -> (r: bool)
    ensures
        r == v@.contains(*b),
{
    let mut k: usize = 0;
    while k < v.len()
        invariant
            k <= v@.len(),
            forall|k2: int| 0 <= k2 < k ==> v@[k2] != *b,
        decreases v@.len() - k,
    {
        if v[k] == *b {
            assert(v@[k as int] == *b);
            return true;
        }
        k += 1;
    }
    false
}

proof fn lemma_chunk_coord(p: int)
    requires
        in_world(p),
    ensures
        chunk_coord(p) * 128 <= p < chunk_coord(p) * 128 + 128,
        chunk_in_world(chunk_coord(p)),
{
    let c = chunk_coord(p);
    assert(c * 128 <= p < c * 128 + 128) by (nonlinear_arith)
        requires
            c == p / 128,
    ;
}

/// `p / 128` rounded towards negative infinity.
fn floor_chunk(p: i32) -> (c: i32)
    requires
        in_world(p as int),
    ensures
        c as int == chunk_coord(p as int),
        chunk_in_world(c as int),
{
    proof {
        lemma_chunk_coord(p as int);
    }
    if p >= 0 {
        let c = p / CHUNK_SIZE_I32;
        assert(c as int == chunk_coord(p as int)) by (nonlinear_arith)
            requires
                p >= 0,
                c as int == p as int / 128,
        ;
        c
    } else {
        let q: i32 = -(p + 1);
        let c = -(q / CHUNK_SIZE_I32) - 1;
        let ghost d = chunk_coord(p as int);
        assert(d * 128 <= p < d * 128 + 128);
        assert(c as int == d) by (nonlinear_arith)
            requires
                p < 0,
                q == -(p + 1),
                c == -(q / 128) - 1,
                d * 128 <= p < d * 128 + 128,
        ;
        c
    }
}

/// Chunk bounds tile the lattice: every point lies in the bounds computed
/// for it, and any bounds computed for another point that contain it are
/// the same bounds. So no point falls in a gap, and no two distinct computed
/// bounds overlap.
pub proof fn lemma_bounds_tile(p: (i32, i32, i32), q: (i32, i32, i32))
    requires
        point_in_world(p),
        point_in_world(q),
    ensures
        bounds_at(p.0 as int, p.1 as int, p.2 as int).contains_spec(p.0 as int, p.1 as int, p.2 as int),
        bounds_at(q.0 as int, q.1 as int, q.2 as int).contains_spec(p.0 as int, p.1 as int, p.2 as int)
            <==> bounds_at(q.0 as int, q.1 as int, q.2 as int) == bounds_at(p.0 as int, p.1 as int, p.2 as int),
{
    lemma_chunk_coord(p.0 as int);
    lemma_chunk_coord(p.1 as int);
    lemma_chunk_coord(p.2 as int);
    lemma_chunk_coord(q.0 as int);
    lemma_chunk_coord(q.1 as int);
    lemma_chunk_coord(q.2 as int);
    lemma_same_chunk(p.0 as int, q.0 as int);
    lemma_same_chunk(p.1 as int, q.1 as int);
    lemma_same_chunk(p.2 as int, q.2 as int);
}

proof fn lemma_same_chunk(p: int, q: int)
    requires
        in_world(p),
        in_world(q),
    ensures
        (chunk_coord(q) * 128 <= p < (chunk_coord(q) + 1) * 128) <==> chunk_coord(q) == chunk_coord(p),
{
    lemma_chunk_coord(p);
    lemma_chunk_coord(q);
    let a = chunk_coord(p);
    let b = chunk_coord(q);
    assert((b * 128 <= p < (b + 1) * 128) ==> b == a) by (nonlinear_arith)
        requires
            a * 128 <= p < a * 128 + 128,
    ;
}

} // verus!
