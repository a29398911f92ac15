use vstd::prelude::*;

use crate::bounds::{bounds_at, bounds_entered, bounds_of_chunk, chunk_in_world, point_in_world, ChunkBounds, CHUNK_SIZE};
use crate::store::ChunkStore;
use crate::greedy::{exact_cover, greedy_mesh, greedy_quads};
use crate::mesh::Mesh;
use crate::voxels::{Block, BlockGrid};

verus! {

/// Type of the blocks that terrain generation fills in.
pub const TERRAIN_BLOCK_TYPE: u32 = 1;

/// Type of the blocks that a placing edit adds.
pub const PLACED_BLOCK_TYPE: u32 = 2;

/// What a line-cast edit does to the first solid voxel on the line.
#[derive(Clone, Copy, Debug, PartialEq, Eq, Structural)]
pub enum EditIntent {
    /// Empty the first solid voxel hit.
    Remove,
    /// Fill the empty voxel visited just before the first solid voxel hit.
    Place,
}

/// A chunk of discrete blocks: `CHUNK_SIZE`³ voxels at chunk coordinates
/// `position`, with the greedy mesh of its blocks.
pub struct Chunk {
    position: (i32, i32, i32),
    blocks: BlockGrid,
    mesh: Option<Mesh>,
}

/// Whether voxel `(x, y, z)` of a chunk lies at or below its column's height.
pub open spec fn under_surface(heights: Seq<i32>, x: int, y: int, z: int) -> bool {
    y <= heights[x * CHUNK_SIZE as int + z]
}

/// The new content of the voxel that an edit changes.
pub open spec fn edit_value(intent: EditIntent) -> Option<u32> {
    match intent {
        EditIntent::Remove => None,
        EditIntent::Place => Some(PLACED_BLOCK_TYPE),
    }
}

impl Chunk {
    pub closed spec fn pos(&self) -> (i32, i32, i32) {
        self.position
    }

    pub closed spec fn grid(&self) -> BlockGrid {
        self.blocks
    }

    pub closed spec fn mesh_view(&self) -> Option<Mesh> {
        self.mesh
    }

    /// The mesh is built and is the greedy mesh of the current blocks, which
    /// covers each exposed face exactly once.
    pub open spec fn wf(&self) -> bool {
        &&& chunk_in_world(self.pos().0 as int)
        &&& chunk_in_world(self.pos().1 as int)
        &&& chunk_in_world(self.pos().2 as int)
        &&& self.grid().wf()
        &&& self.grid().side() == CHUNK_SIZE
        &&& self.mesh_view() is Some
        &&& self.mesh_view()->0.quads_view() == greedy_mesh(self.grid())
        &&& exact_cover(self.grid(), self.mesh_view()->0.quads_view())
        &&& self.mesh_view()->0.laid_out()
    }

    pub open spec fn bounds_spec(&self) -> ChunkBounds {
        bounds_of_chunk(self.pos().0 as int, self.pos().1 as int, self.pos().2 as int)
    }

    /// The lattice point lies in this chunk.
    pub open spec fn visits(&self, p: (i32, i32, i32)) -> bool {
        self.bounds_spec().contains_spec(p.0 as int, p.1 as int, p.2 as int)
    }

    /// Chunk-local voxel coordinates of a lattice point.
    pub open spec fn local(&self, p: (i32, i32, i32)) -> (int, int, int) {
        let b = self.bounds_spec();
        (p.0 - b.min.0, p.1 - b.min.1, p.2 - b.min.2)
    }

    /// The lattice point lies on a solid voxel of this chunk.
    pub open spec fn hits(&self, p: (i32, i32, i32)) -> bool {
        let l = self.local(p);
        self.visits(p) && self.grid().solid(l.0, l.1, l.2)
    }

    /// `h` is the first point of the line on a solid voxel of this chunk.
    pub open spec fn first_hit(&self, pts: Seq<(i32, i32, i32)>, h: int) -> bool {
        &&& 0 <= h < pts.len()
        &&& self.hits(pts[h])
        &&& forall|k: int| 0 <= k < h ==> !self.hits(#[trigger] pts[k])
    }

    /// `l` is the last point of the line in this chunk before point `h`.
    pub open spec fn last_visit_before(&self, pts: Seq<(i32, i32, i32)>, l: int, h: int) -> bool {
        &&& 0 <= l < h
        &&& self.visits(pts[l])
        &&& forall|k: int| l < k < h ==> !self.visits(#[trigger] pts[k])
    }

    /// The voxel that a line-cast edit changes, if any: for removal the first
    /// solid voxel on the line, for placement the voxel of the chunk visited
    /// just before it.
    pub open spec fn edit_target(&self, pts: Seq<(i32, i32, i32)>, intent: EditIntent) -> Option<
        (int, int, int),
    > {
        match intent {
            EditIntent::Remove => if exists|h: int| self.first_hit(pts, h) {
                Some(self.local(pts[choose|h: int| self.first_hit(pts, h)]))
            } else {
                None
            },
            EditIntent::Place => if exists|hl: (int, int)|
                self.first_hit(pts, hl.0) && self.last_visit_before(pts, hl.1, hl.0) {
                let hl = choose|hl: (int, int)|
                    self.first_hit(pts, hl.0) && self.last_visit_before(pts, hl.1, hl.0);
                Some(self.local(pts[hl.1]))
            } else {
                None
            },
        }
    }

    /// A chunk at chunk coordinates `position` whose voxel `(x, y, z)` holds a
    /// terrain block exactly when `y` is at most the column height
    /// `heights[x * CHUNK_SIZE + z]`; its mesh is built at once.
    pub fn new(position: (i32, i32, i32), heights: &Vec<i32>) -> (r: Chunk)
        requires
            chunk_in_world(position.0 as int),
            chunk_in_world(position.1 as int),
            chunk_in_world(position.2 as int),
            heights@.len() == CHUNK_SIZE * CHUNK_SIZE,
        ensures
            r.wf(),
            r.pos() == position,
            forall|x: int, y: int, z: int|
                0 <= x < CHUNK_SIZE && 0 <= y < CHUNK_SIZE && 0 <= z < CHUNK_SIZE ==> #[trigger] r.grid().at(
                    x,
                    y,
                    z,
                ) == if under_surface(heights@, x, y, z) {
                    Some(TERRAIN_BLOCK_TYPE)
                } else {
                    None
                },
    {
        let mut blocks = BlockGrid::new(CHUNK_SIZE);
        let mut x: usize = 0;
        while x < CHUNK_SIZE
            invariant
                blocks.wf(),
                blocks.side() == CHUNK_SIZE,
                heights@.len() == CHUNK_SIZE * CHUNK_SIZE,
                x <= CHUNK_SIZE,
                forall|a: int, b: int, c: int|
                    #![trigger blocks.at(a, b, c)]
                    blocks.at(a, b, c) == if 0 <= a < x && 0 <= b < CHUNK_SIZE && 0 <= c < CHUNK_SIZE
                        && under_surface(heights@, a, b, c) {
                        Some(TERRAIN_BLOCK_TYPE)
                    } else {
                        None
                    },
            decreases CHUNK_SIZE - x,
        {
            let mut z: usize = 0;
            while z < CHUNK_SIZE
                invariant
                    blocks.wf(),
                    blocks.side() == CHUNK_SIZE,
                    heights@.len() == CHUNK_SIZE * CHUNK_SIZE,
                    x < CHUNK_SIZE,
                    z <= CHUNK_SIZE,
                    forall|a: int, b: int, c: int|
                        #![trigger blocks.at(a, b, c)]
                        blocks.at(a, b, c) == if 0 <= b < CHUNK_SIZE && 0 <= c < CHUNK_SIZE && (0 <= a
                            < x || (a == x && c < z)) && under_surface(heights@, a, b, c) {
                            Some(TERRAIN_BLOCK_TYPE)
                        } else {
                            None
                        },
                decreases CHUNK_SIZE - z,
            {
                let height = heights[x * CHUNK_SIZE + z];
                let mut y: usize = 0;
                while y < CHUNK_SIZE
                    invariant
                        blocks.wf(),
                        blocks.side() == CHUNK_SIZE,
                        heights@.len() == CHUNK_SIZE * CHUNK_SIZE,
                        x < CHUNK_SIZE,
                        z < CHUNK_SIZE,
                        y <= CHUNK_SIZE,
                        height == heights@[x * CHUNK_SIZE + z],
                        forall|a: int, b: int, c: int|
                            #![trigger blocks.at(a, b, c)]
                            blocks.at(a, b, c) == if 0 <= b < CHUNK_SIZE && 0 <= c < CHUNK_SIZE && (0
                                <= a < x || (a == x && c < z) || (a == x && c == z && b < y))
                                && under_surface(heights@, a, b, c) {
                                Some(TERRAIN_BLOCK_TYPE)
                            } else {
                                None
                            },
                    decreases CHUNK_SIZE - y,
                {
                    if (y as i32) <= height {
                        blocks.set(x, y, z, Some(Block::new(TERRAIN_BLOCK_TYPE)));
                    }
                    y += 1;
                }
                z += 1;
            }
            x += 1;
        }
        let mut chunk = Chunk { position, blocks, mesh: None };
        chunk.mesh = Some(chunk.calculate_mesh());
        chunk
    }

    /// The greedy mesh of the chunk's blocks.
    pub fn calculate_mesh(&self) -> (r: Mesh)
        requires
            self.grid().wf(),
            self.grid().side() == CHUNK_SIZE,
        ensures
            r.quads_view() == greedy_mesh(self.grid()),
            exact_cover(self.grid(), r.quads_view()),
            r.laid_out(),
            r.buffered() is None,
    {
        let quads = greedy_quads(&self.blocks);
        Mesh::new(quads, CHUNK_SIZE)
    }

    /// The chunk's bounds in lattice coordinates.
    pub fn get_bounds(&self) -> (r: ChunkBounds)
        requires
            self.wf(),
        ensures
            r == self.bounds_spec(),
    {
        ChunkBounds::of_chunk(self.position.0, self.position.1, self.position.2)
    }

    /// Line-cast edit. `points` are the lattice points that a ray passes, in
    /// order from its origin. Points outside this chunk are skipped. On the
    /// first point on a solid voxel, removal empties that voxel; placement
    /// fills the voxel of the chunk visited just before it with a block of
    /// `PLACED_BLOCK_TYPE`, and does nothing when the line met no voxel of
    /// the chunk before. After a change the mesh is rebuilt. Returns whether
    /// a voxel changed.
    pub fn process_line(&mut self, points: &Vec<(i32, i32, i32)>, intent: EditIntent) -> (r: bool)
        requires
            old(self).wf(),
        ensures
            final(self).wf(),
            final(self).pos() == old(self).pos(),
            r == old(self).edit_target(points@, intent) is Some,
            r ==> forall|a: int, b: int, c: int|
                #![trigger final(self).grid().at(a, b, c)]
                final(self).grid().at(a, b, c) == if (a, b, c) == old(self).edit_target(
                    points@,
                    intent,
                )->0 {
                    edit_value(intent)
                } else {
                    old(self).grid().at(a, b, c)
                },
            !r ==> *final(self) == *old(self),
    {
        let bounds = self.get_bounds();
        let ghost pts = points@;
        let ghost pre = *self;
        let mut last: Option<(usize, usize, usize)> = None;
        let mut target: Option<(usize, usize, usize)> = None;
        let mut done = false;
        let ghost mut lv: int = 0;
        let ghost mut h: int = 0;
        let mut k: usize = 0;
        while k < points.len() && !done
            invariant
                *self == pre,
                pre.wf(),
                pts == points@,
                bounds == pre.bounds_spec(),
                k <= pts.len(),
                !done ==> forall|kk: int| 0 <= kk < k ==> !pre.hits(#[trigger] pts[kk]),
                !done ==> target is None,
                done ==> 0 <= h < k,
                last is None ==> forall|kk: int|
                    0 <= kk < (if done {
                        h
                    } else {
                        k as int
                    }) ==> !pre.visits(#[trigger] pts[kk]),
                last is Some ==> {
                    &&& 0 <= lv < (if done {
                        h
                    } else {
                        k as int
                    })
                    &&& pre.visits(pts[lv])
                    &&& forall|kk: int|
                        lv < kk < (if done {
                            h
                        } else {
                            k as int
                        }) ==> !pre.visits(#[trigger] pts[kk])
                    &&& pre.local(pts[lv]) == local_triple(last->0)
                },
                done ==> {
                    &&& pre.first_hit(pts, h)
                    &&& intent == EditIntent::Remove ==> target is Some && pre.local(pts[h])
                        == local_triple(target->0)
                    &&& intent == EditIntent::Place ==> target == last
                },
            decreases pts.len() - k,
        {
            let p = points[k];
            if bounds.contains(p.0, p.1, p.2) {
                let lx = (p.0 - bounds.min.0) as usize;
                let ly = (p.1 - bounds.min.1) as usize;
                let lz = (p.2 - bounds.min.2) as usize;
                if self.blocks.get(lx, ly, lz).is_some() {
                    proof {
                        h = k as int;
                    }
                    done = true;
                    target = match intent {
                        EditIntent::Remove => Some((lx, ly, lz)),
                        EditIntent::Place => last,
                    };
                } else {
                    proof {
                        lv = k as int;
                    }
                    last = Some((lx, ly, lz));
                }
            }
            k += 1;
        }
        proof {
            if done {
                lemma_first_hit_unique(pre, pts, h);
                if intent == EditIntent::Place {
                    if last is Some {
                        assert(pre.last_visit_before(pts, lv, h));
                        lemma_last_visit_unique(pre, pts, lv, h);
                    } else {
                        assert forall|hl: (int, int)|
                            !(pre.first_hit(pts, hl.0) && pre.last_visit_before(pts, hl.1, hl.0)) by {
                            if pre.first_hit(pts, hl.0) && pre.last_visit_before(pts, hl.1, hl.0) {
                                assert(hl.0 == h);
                                assert(!pre.visits(pts[hl.1]));
                            }
                        }
                    }
                }
            } else {
                assert forall|h2: int| !pre.first_hit(pts, h2) by {
                    if pre.first_hit(pts, h2) {
                        assert(!pre.hits(pts[h2]));
                    }
                }
                assert forall|hl: (int, int)|
                    !(pre.first_hit(pts, hl.0) && pre.last_visit_before(pts, hl.1, hl.0)) by {
                    assert(!pre.first_hit(pts, hl.0));
                }
            }
        }
        match target {
            Some((a, b, c)) => {
                proof {
                    if intent == EditIntent::Remove {
                        assert(pre.first_hit(pts, h));
                        assert(pre.edit_target(pts, intent) == Some(local_triple((a, b, c))));
                    } else {
                        let hl = (h, lv);
                        assert(pre.first_hit(pts, hl.0) && pre.last_visit_before(pts, hl.1, hl.0));
                        assert(pre.edit_target(pts, intent) == Some(local_triple((a, b, c))));
                    }
                }
                let block = match intent {
                    EditIntent::Remove => None,
                    EditIntent::Place => Some(Block::new(PLACED_BLOCK_TYPE)),
                };
                self.blocks.set(a, b, c, block);
                self.mesh = Some(self.calculate_mesh());
                true
            },
            None => false,
        }
    }

    pub fn position(&self) -> (r: (i32, i32, i32))
        ensures
            r == self.pos(),
    {
        self.position
    }

    pub fn blocks(&self) -> (r: &BlockGrid)
        ensures
            *r == self.grid(),
    {
        &self.blocks
    }

    pub fn mesh(&self) -> (r: &Option<Mesh>)
        ensures
            *r == self.mesh_view(),
    {
        &self.mesh
    }
}

/// Every chunk held in the store is well formed.
pub open spec fn chunks_wf(st: ChunkStore<Chunk>) -> bool {
    &&& st.wf()
    &&& forall|k: ChunkBounds| #[trigger] st.view().contains_key(k) ==> st.view()[k].wf()
}

/// The chunks that a line from `start` through `pts` passes, in order: the
/// origin's chunk, then the chunks entered after leaving it.
pub open spec fn line_chunks(start: (i32, i32, i32), pts: Seq<(i32, i32, i32)>) -> Seq<ChunkBounds> {
    seq![bounds_at(start.0 as int, start.1 as int, start.2 as int)] + bounds_entered(start, pts)
}

/// `b` holds a loaded chunk that the line edits.
pub open spec fn edits_at(st: ChunkStore<Chunk>, b: ChunkBounds, pts: Seq<(i32, i32, i32)>, intent: EditIntent) -> bool {
    st.view().contains_key(b) && st.view()[b].edit_target(pts, intent) is Some
}

/// `m` is the first chunk along the line that the line edits.
pub open spec fn first_edited(
    st: ChunkStore<Chunk>,
    bs: Seq<ChunkBounds>,
    pts: Seq<(i32, i32, i32)>,
    intent: EditIntent,
    m: int,
) -> bool {
    &&& 0 <= m < bs.len()
    &&& edits_at(st, bs[m], pts, intent)
    &&& forall|m2: int| 0 <= m2 < m ==> !edits_at(st, #[trigger] bs[m2], pts, intent)
}

/// `new` is chunk `old` after the line-cast edit of `pts`.
pub open spec fn chunk_edited(old: Chunk, new: Chunk, pts: Seq<(i32, i32, i32)>, intent: EditIntent) -> bool {
    &&& new.wf()
    &&& new.pos() == old.pos()
    &&& forall|a: int, b: int, c: int|
        #![trigger new.grid().at(a, b, c)]
        new.grid().at(a, b, c) == if (a, b, c) == old.edit_target(pts, intent)->0 {
            edit_value(intent)
        } else {
            old.grid().at(a, b, c)
        }
}

impl ChunkStore<Chunk> {
    /// Line-cast edit over the loaded chunks: visits the origin's chunk, then
    /// the chunks the line enters in order, and edits the first one in which
    /// the line changes a voxel. Along a ray each chunk is passed once, so
    /// that chunk holds the first occupied voxel on the ray. Returns whether a
    /// voxel changed.
    pub fn process_line(&mut self, start: (i32, i32, i32), points: &Vec<(i32, i32, i32)>, intent: EditIntent) -> (r: bool)
        requires
            chunks_wf(*old(self)),
            point_in_world(start),
            forall|k: int| 0 <= k < points@.len() ==> point_in_world(#[trigger] points@[k]),
        ensures
            chunks_wf(*final(self)),
            final(self).view().dom() == old(self).view().dom(),
            r == exists|m: int| first_edited(*old(self), line_chunks(start, points@), points@, intent, m),
            !r ==> final(self).view() == old(self).view(),
            r ==> exists|m: int|
                {
                    let b = #[trigger] line_chunks(start, points@)[m];
                    &&& first_edited(*old(self), line_chunks(start, points@), points@, intent, m)
                    &&& chunk_edited(old(self).view()[b], final(self).view()[b], points@, intent)
                    &&& forall|k: ChunkBounds|
                        #![trigger final(self).view()[k]]
                        k != b && old(self).view().contains_key(k) ==> final(self).view()[k] == old(
                            self,
                        ).view()[k]
                },
    {
        let ghost pre = *self;
        let ghost pts = points@;
        let passed = ChunkBounds::get_chunk_bounds_on_line(start, points);
        let ghost lc = line_chunks(start, pts);
        let last = passed.len() - 1;
        let mut bs: Vec<ChunkBounds> = Vec::new();
        bs.push(passed[last]);
        let mut q: usize = 0;
        while q < last
            invariant
                last + 1 == passed@.len(),
                passed@ == bounds_entered(start, pts).push(bounds_at(start.0 as int, start.1 as int, start.2 as int)),
                q <= last,
                bs@ == seq![passed@[last as int]] + passed@.take(q as int),
            decreases last - q,
        {
            bs.push(passed[q]);
            proof {
                assert(bs@ =~= seq![passed@[last as int]] + passed@.take(q + 1));
            }
            q += 1;
        }
        proof {
            assert(passed@.take(last as int) =~= bounds_entered(start, pts));
            assert(bs@ =~= lc);
        }
        let mut idx: usize = 0;
        let mut done = false;
        while idx < bs.len() && !done
            invariant
                chunks_wf(pre),
                chunks_wf(*self),
                pts == points@,
                bs@ == lc,
                idx <= bs@.len(),
                self.view().dom() == pre.view().dom(),
                !done ==> self.view() == pre.view(),
                !done ==> forall|m2: int| 0 <= m2 < idx ==> !edits_at(pre, #[trigger] lc[m2], pts, intent),
                done ==> {
                    let m = idx - 1;
                    let b = lc[m];
                    &&& 0 <= m < lc.len()
                    &&& first_edited(pre, lc, pts, intent, m)
                    &&& chunk_edited(pre.view()[b], self.view()[b], pts, intent)
                    &&& forall|k: ChunkBounds|
                        #![trigger self.view()[k]]
                        k != b && pre.view().contains_key(k) ==> self.view()[k] == pre.view()[k]
                },
            decreases bs@.len() - idx,
        {
            let key = bs[idx];
            let ghost mid = self.view();
            match self.remove(&key) {
                Some(mut chunk) => {
                    let ghost before = chunk;
                    let changed = chunk.process_line(points, intent);
                    self.insert(key, chunk);
                    proof {
                        assert(mid.contains_key(key));
                        if changed {
                            assert(edits_at(pre, lc[idx as int], pts, intent));
                            assert(first_edited(pre, lc, pts, intent, idx as int));
                            assert(self.view() == mid.remove(key).insert(key, chunk));
                            assert(self.view().dom() =~= pre.view().dom());
                        } else {
                            assert(chunk == before);
                            assert(self.view() =~= mid);
                        }
                        assert forall|k: ChunkBounds| #[trigger] self.view().contains_key(k) implies self.view()[k].wf() by {
                            if k != key {
                                assert(self.view()[k] == mid[k]);
                            }
                        }
                    }
                    if changed {
                        done = true;
                    }
                },
                None => {
                    proof {
                        assert(!mid.contains_key(key));
                        assert(self.view() =~= mid);
                    }
                },
            }
            idx += 1;
        }
        proof {
            if !done {
                assert forall|m: int| !first_edited(pre, lc, pts, intent, m) by {
                    if first_edited(pre, lc, pts, intent, m) {
                        assert(!edits_at(pre, lc[m], pts, intent));
                    }
                }
            } else {
                let m = idx - 1;
                assert forall|m2: int| first_edited(pre, lc, pts, intent, m2) implies m2 == m by {
                    if m2 < m {
                        assert(!edits_at(pre, lc[m2], pts, intent));
                    } else if m2 > m {
                        assert(!edits_at(pre, lc[m], pts, intent));
                    }
                }
                assert(lc[m] == line_chunks(start, points@)[m]);
            }
        }
        done
    }
}

pub open spec fn local_triple(t: (usize, usize, usize)) -> (int, int, int) {
    (t.0 as int, t.1 as int, t.2 as int)
}

proof fn lemma_first_hit_unique(c: Chunk, pts: Seq<(i32, i32, i32)>, h: int)
    requires
        c.first_hit(pts, h),
    ensures
        forall|h2: int| c.first_hit(pts, h2) ==> h2 == h,
{
    assert forall|h2: int| c.first_hit(pts, h2) implies h2 == h by {
        if h2 < h {
            assert(!c.hits(pts[h2]));
        } else if h2 > h {
            assert(!c.hits(pts[h]));
        }
    }
}

proof fn lemma_last_visit_unique(c: Chunk, pts: Seq<(i32, i32, i32)>, l: int, h: int)
    requires
        c.last_visit_before(pts, l, h),
    ensures
        forall|l2: int| c.last_visit_before(pts, l2, h) ==> l2 == l,
{
    assert forall|l2: int| c.last_visit_before(pts, l2, h) implies l2 == l by {
        if l2 < l {
            assert(!c.visits(pts[l]));
        } else if l2 > l {
            assert(!c.visits(pts[l2]));
        }
    }
}

} // verus!
