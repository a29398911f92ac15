use vstd::prelude::*;

use crate::greedy::{axis_point, quads_in_grid, Quad};
use crate::voxels::MAX_GRID_SIZE;

verus! {

/// Offsets `(along u, along v)` of corner `c` of a quad, in the winding that
/// makes the front face look along the face's orientation.
pub open spec fn corner_offset(q: Quad, c: int) -> (int, int) {
    let w = q.width as int;
    let h = q.height as int;
    if !q.flip {
        if c == 0 {
            (w, 0)
        } else if c == 1 {
            (0, 0)
        } else if c == 2 {
            (w, h)
        } else {
            (0, h)
        }
    } else {
        if c == 0 {
            (0, 0)
        } else if c == 1 {
            (w, 0)
        } else if c == 2 {
            (0, h)
        } else {
            (w, h)
        }
    }
}

/// Lattice position of corner `c` (0 to 3) of a quad.
pub open spec fn quad_corner(q: Quad, c: int) -> (i32, i32, i32) {
    let o = corner_offset(q, c);
    let p = axis_point(q.axis as int, q.slice as int, q.u + o.0, q.v + o.1);
    (p.0 as i32, p.1 as i32, p.2 as i32)
}

/// Unit normal of a quad: along its axis, towards increasing coordinates
/// when the solid voxel lies below the plane.
pub open spec fn quad_normal(q: Quad) -> (i32, i32, i32) {
    let p = axis_point(q.axis as int, if q.flip { 1 } else { -1 }, 0, 0);
    (p.0 as i32, p.1 as i32, p.2 as i32)
}

/// Index `e` (0 to 5) of the two triangles of the quad whose first vertex is
/// `base`.
pub open spec fn quad_index(base: int, e: int) -> int {
    if e == 0 {
        base
    } else if e == 1 {
        base + 1
    } else if e == 2 {
        base + 2
    } else if e == 3 {
        base + 2
    } else if e == 4 {
        base + 1
    } else {
        base + 3
    }
}

/// Vertex data of a block mesh: four vertices and two triangles per quad.
/// GPU buffers are made from it on first render, once.
pub struct Mesh {
    quads: Vec<Quad>,
    vertices: Vec<(i32, i32, i32)>,
    indices: Vec<u32>,
    normals: Vec<(i32, i32, i32)>,
    block_type: Vec<u32>,
    vertex_array: Option<u32>,
}

impl Mesh {
    pub closed spec fn quads_view(&self) -> Seq<Quad> {
        self.quads@
    }

    pub closed spec fn vertices_view(&self) -> Seq<(i32, i32, i32)> {
        self.vertices@
    }

    pub closed spec fn indices_view(&self) -> Seq<u32> {
        self.indices@
    }

    pub closed spec fn normals_view(&self) -> Seq<(i32, i32, i32)> {
        self.normals@
    }

    pub closed spec fn block_type_view(&self) -> Seq<u32> {
        self.block_type@
    }

    /// The arrays lay out the quads in order.
    pub open spec fn laid_out(&self) -> bool {
        let n = self.quads_view().len();
        &&& self.vertices_view().len() == 4 * n
        &&& self.normals_view().len() == 4 * n
        &&& self.block_type_view().len() == 4 * n
        &&& self.indices_view().len() == 6 * n
        &&& forall|m: int, c: int|
            0 <= m < n && 0 <= c < 4 ==> {
                &&& #[trigger] self.vertices_view()[4 * m + c] == quad_corner(self.quads_view()[m], c)
                &&& self.normals_view()[4 * m + c] == quad_normal(self.quads_view()[m])
                &&& self.block_type_view()[4 * m + c] == self.quads_view()[m].block_type
            }
        &&& forall|m: int, e: int|
            0 <= m < n && 0 <= e < 6 ==> #[trigger] self.indices_view()[6 * m + e] == quad_index(
                4 * m,
                e,
            )
    }

    pub closed spec fn buffered(&self) -> Option<u32> {
        self.vertex_array
    }

    /// Lays out the quads of a grid of side at most `MAX_GRID_SIZE`.
    pub fn new(quads: Vec<Quad>, side: usize) -> (r: Mesh)
        requires
            side <= MAX_GRID_SIZE,
            quads_in_grid(quads@, side as int),
            quads@.len() <= 3 * (side + 1) * (side * side),
        ensures
            r.quads_view() == quads@,
            r.laid_out(),
            r.buffered() is None,
    {
        assert(3 * (side + 1) * (side * side) <= 3 * 257 * 65536) by (nonlinear_arith)
            requires
                side <= 256,
        ;
        let mut vertices: Vec<(i32, i32, i32)> = Vec::new();
        let mut normals: Vec<(i32, i32, i32)> = Vec::new();
        let mut block_type: Vec<u32> = Vec::new();
        let mut indices: Vec<u32> = Vec::new();
        let mut m: usize = 0;
        while m < quads.len()
            invariant
                side <= MAX_GRID_SIZE,
                quads_in_grid(quads@, side as int),
                quads@.len() <= 3 * 257 * 65536,
                m <= quads@.len(),
                vertices@.len() == 4 * m,
                normals@.len() == 4 * m,
                block_type@.len() == 4 * m,
                indices@.len() == 6 * m,
                forall|m2: int, c: int|
                    0 <= m2 < m && 0 <= c < 4 ==> {
                        &&& #[trigger] vertices@[4 * m2 + c] == quad_corner(quads@[m2], c)
                        &&& normals@[4 * m2 + c] == quad_normal(quads@[m2])
                        &&& block_type@[4 * m2 + c] == quads@[m2].block_type
                    },
                forall|m2: int, e: int|
                    0 <= m2 < m && 0 <= e < 6 ==> #[trigger] indices@[6 * m2 + e] == quad_index(
                        4 * m2,
                        e,
                    ),
            decreases quads@.len() - m,
        {
            let q = quads[m];
            let ghost v0 = vertices@;
            let ghost n0 = normals@;
            let ghost b0 = block_type@;
            let ghost i0 = indices@;
            let mut c: usize = 0;
            while c < 4
                invariant
                    side <= MAX_GRID_SIZE,
                    q == quads@[m as int],
                    q.axis < 3,
                    q.slice <= side,
                    q.u + q.width <= side,
                    q.v + q.height <= side,
                    c <= 4,
                    vertices@.len() == 4 * m + c,
                    normals@.len() == 4 * m + c,
                    block_type@.len() == 4 * m + c,
                    vertices@.subrange(0, 4 * m as int) == v0,
                    normals@.subrange(0, 4 * m as int) == n0,
                    block_type@.subrange(0, 4 * m as int) == b0,
                    v0.len() == 4 * m,
                    n0.len() == 4 * m,
                    b0.len() == 4 * m,
                    forall|c2: int|
                        0 <= c2 < c ==> {
                            &&& #[trigger] vertices@[4 * m + c2] == quad_corner(q, c2)
                            &&& normals@[4 * m + c2] == quad_normal(q)
                            &&& block_type@[4 * m + c2] == q.block_type
                        },
                decreases 4 - c,
            {
                let ghost pv = vertices@;
                let ghost pn = normals@;
                let ghost pb = block_type@;
                vertices.push(corner(&q, c));
                normals.push(normal(&q));
                block_type.push(q.block_type);
                c += 1;
                proof {
                    assert forall|c2: int| 0 <= c2 < c implies {
                        &&& #[trigger] vertices@[4 * m + c2] == quad_corner(q, c2)
                        &&& normals@[4 * m + c2] == quad_normal(q)
                        &&& block_type@[4 * m + c2] == q.block_type
                    } by {
                        if c2 < c - 1 {
                            assert(vertices@[4 * m + c2] == pv[4 * m + c2]);
                            assert(normals@[4 * m + c2] == pn[4 * m + c2]);
                            assert(block_type@[4 * m + c2] == pb[4 * m + c2]);
                        }
                    }
                    assert(vertices@.subrange(0, 4 * m as int) =~= v0);
                    assert(normals@.subrange(0, 4 * m as int) =~= n0);
                    assert(block_type@.subrange(0, 4 * m as int) =~= b0);
                }
            }
            let base = (4 * m) as u32;
            indices.push(base);
            indices.push(base + 1);
            indices.push(base + 2);
            indices.push(base + 2);
            indices.push(base + 1);
            indices.push(base + 3);
            m += 1;
            proof {
                assert forall|m2: int, c2: int| 0 <= m2 < m && 0 <= c2 < 4 implies {
                    &&& #[trigger] vertices@[4 * m2 + c2] == quad_corner(quads@[m2], c2)
                    &&& normals@[4 * m2 + c2] == quad_normal(quads@[m2])
                    &&& block_type@[4 * m2 + c2] == quads@[m2].block_type
                } by {
                    if m2 < m - 1 {
                        let k = 4 * (m - 1);
                        assert(vertices@[4 * m2 + c2] == vertices@.subrange(0, k)[4 * m2 + c2]);
                        assert(normals@[4 * m2 + c2] == normals@.subrange(0, k)[4 * m2 + c2]);
                        assert(block_type@[4 * m2 + c2] == block_type@.subrange(0, k)[4 * m2 + c2]);
                    } else {
                        assert(quads@[m2] == q);
                        assert(vertices@[4 * (m - 1) + c2] == quad_corner(q, c2));
                    }
                }
                assert forall|m2: int, e: int| 0 <= m2 < m && 0 <= e < 6 implies #[trigger] indices@[6 * m2 + e]
                    == quad_index(4 * m2, e) by {
                    if m2 < m - 1 {
                        assert(indices@[6 * m2 + e] == i0[6 * m2 + e]);
                    }
                }
            }
        }
        Mesh { quads, vertices, indices, normals, block_type, vertex_array: None }
    }

    pub fn is_buffered(&self) -> (r: bool)
        ensures
            r == self.buffered() is Some,
    {
        self.vertex_array.is_some()
    }

    /// Records the GPU vertex array made from this mesh. A mesh is buffered
    /// once and stays buffered.
    pub fn set_buffered(&mut self, vertex_array: u32)
        requires
            old(self).buffered() is None,
        ensures
            final(self).buffered() == Some(vertex_array),
            final(self).quads_view() == old(self).quads_view(),
            final(self).vertices_view() == old(self).vertices_view(),
            final(self).indices_view() == old(self).indices_view(),
            final(self).normals_view() == old(self).normals_view(),
            final(self).block_type_view() == old(self).block_type_view(),
    {
        self.vertex_array = Some(vertex_array);
    }

    pub fn quads(&self) -> (r: &Vec<Quad>)
        ensures
            r@ == self.quads_view(),
    {
        &self.quads
    }

    pub fn vertices(&self) -> (r: &Vec<(i32, i32, i32)>)
        ensures
            r@ == self.vertices_view(),
    {
        &self.vertices
    }

    pub fn indices(&self) -> (r: &Vec<u32>)
        ensures
            r@ == self.indices_view(),
    {
        &self.indices
    }

    pub fn normals(&self) -> (r: &Vec<(i32, i32, i32)>)
        ensures
            r@ == self.normals_view(),
    {
        &self.normals
    }

    pub fn block_type(&self) -> (r: &Vec<u32>)
        ensures
            r@ == self.block_type_view(),
    {
        &self.block_type
    }

    /// The GPU vertex array of a buffered mesh.
    pub fn vertex_array(&self) -> (r: Option<u32>)
        ensures
            r == self.buffered(),
    {
        self.vertex_array
    }
}

/// Every normal of a laid-out block mesh has unit length: it is a unit
/// vector along one axis.
pub proof fn lemma_normals_unit(m: Mesh, k: int)
    requires
        m.laid_out(),
        quads_in_grid(m.quads_view(), MAX_GRID_SIZE as int),
        0 <= k < m.normals_view().len(),
    ensures
        ({
            let n = m.normals_view()[k];
            n.0 * n.0 + n.1 * n.1 + n.2 * n.2 == 1
        }),
{
    let q = k / 4;
    let c = k % 4;
    assert(k == 4 * q + c);
    assert(0 <= c < 4);
    assert(0 <= q < m.quads_view().len());
    assert(m.vertices_view()[4 * q + c] == quad_corner(m.quads_view()[q], c));
    let qd = m.quads_view()[q];
    assert(m.normals_view()[k] == quad_normal(qd));
    assert(qd.axis < 3);
    let n = quad_normal(qd);
    let t: int = if qd.flip {
        1
    } else {
        -1
    };
    if qd.axis == 0 {
        assert(n.0 == t && n.1 == 0 && n.2 == 0);
    } else if qd.axis == 1 {
        assert(n.0 == 0 && n.1 == t && n.2 == 0);
    } else {
        assert(n.0 == 0 && n.1 == 0 && n.2 == t);
    }
    assert(t * t == 1);
}

fn on_axis(d: usize, t: usize, i: usize, j: usize) -> (r: (i32, i32, i32))
    requires
        d < 3,
        t <= 2 * MAX_GRID_SIZE,
        i <= 2 * MAX_GRID_SIZE,
        j <= 2 * MAX_GRID_SIZE,
    ensures
        r == ({
            let p = axis_point(d as int, t as int, i as int, j as int);
            (p.0 as i32, p.1 as i32, p.2 as i32)
        }),
{
    let (t, i, j) = (t as i32, i as i32, j as i32);
    if d == 0 {
        (t, i, j)
    } else if d == 1 {
        (j, t, i)
    } else {
        (i, j, t)
    }
}

fn corner(q: &Quad, c: usize) -> (r: (i32, i32, i32))
    requires
        q.axis < 3,
        q.slice <= MAX_GRID_SIZE,
        q.u + q.width <= MAX_GRID_SIZE,
        q.v + q.height <= MAX_GRID_SIZE,
        c < 4,
    ensures
        r == quad_corner(*q, c as int),
{
    let (a, b) = if !q.flip {
        if c == 0 {
            (q.width, 0)
        } else if c == 1 {
            (0, 0)
        } else if c == 2 {
            (q.width, q.height)
        } else {
            (0, q.height)
        }
    } else {
        if c == 0 {
            (0, 0)
        } else if c == 1 {
            (q.width, 0)
        } else if c == 2 {
            (0, q.height)
        } else {
            (q.width, q.height)
        }
    };
    on_axis(q.axis, q.slice, q.u + a, q.v + b)
}

fn normal(q: &Quad) -> (r: (i32, i32, i32))
    requires
        q.axis < 3,
    ensures
        r == quad_normal(*q),
{
    let t: i32 = if q.flip {
        1
    } else {
        -1
    };
    if q.axis == 0 {
        (t, 0, 0)
    } else if q.axis == 1 {
        (0, t, 0)
    } else {
        (0, 0, t)
    }
}

} // verus!
