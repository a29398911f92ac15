use vstd::prelude::*;
use vstd::arithmetic::div_mod::lemma_fundamental_div_mod_converse_div;
use vstd::arithmetic::div_mod::lemma_fundamental_div_mod_converse_mod;

use crate::bounds::CHUNK_SIZE;

verus! {

/// Largest number of cells per axis of a sampled block.
pub const MAX_CELLS: usize = 129;

/// Fewest samples per axis that a chunk keeps at any level of detail.
pub const MIN_RESOLUTION: usize = 8;

/// `r` halved `k` times, rounding down.
pub open spec fn halved(r: nat, k: nat) -> nat
    decreases k,
{
    if k == 0 {
        r
    } else {
        halved(r / 2, (k - 1) as nat)
    }
}

/// Samples per axis at level of detail `lod`: the full chunk size at level 0,
/// halved at each further level, and never below `MIN_RESOLUTION`.
pub open spec fn lod_resolution(lod: nat) -> nat {
    let r = halved(CHUNK_SIZE as nat, lod);
    if r < MIN_RESOLUTION {
        MIN_RESOLUTION as nat
    } else {
        r
    }
}

proof fn lemma_halved_zero(k: nat)
    ensures
        halved(0, k) == 0,
    decreases k,
{
    if k > 0 {
        lemma_halved_zero((k - 1) as nat);
    }
}

proof fn lemma_halved_le(r: nat, k: nat)
    ensures
        halved(r, k) <= r,
    decreases k,
{
    if k > 0 {
        lemma_halved_le(r / 2, (k - 1) as nat);
    }
}

/// Sample resolution of a chunk at a level of detail.
pub fn calculate_chunk_size(lod: usize) -> (r: usize)
    ensures
        r == lod_resolution(lod as nat),
        MIN_RESOLUTION <= r <= CHUNK_SIZE,
{
    let steps: usize = lod;
    let mut r: usize = CHUNK_SIZE;
    let mut i: usize = 0;
    while i < steps && r > 0
        invariant
            i <= steps,
            r <= CHUNK_SIZE,
            halved(r as nat, (steps - i) as nat) == halved(CHUNK_SIZE as nat, steps as nat),
        decreases steps - i,
    {
        r = r / 2;
        i += 1;
    }
    proof {
        if r == 0 {
            lemma_halved_zero((steps - i) as nat);
        }
        lemma_halved_le(CHUNK_SIZE as nat, steps as nat);
    }
    if r < MIN_RESOLUTION {
        MIN_RESOLUTION
    } else {
        r
    }
}

/// Marching-cubes configuration of the cell at `(x, y, z)`: one bit per
/// corner, set when the corner lies on the inner side of the isovalue. Bits
/// 0 to 3 are the corners `(0, 0, 0)`, `(0, 0, 1)`, `(1, 0, 1)`, `(1, 0, 0)` of
/// the lower layer, bits 4 to 7 the same corners one layer up.
pub open spec fn configuration(inside: Seq<bool>, n: int, x: int, y: int, z: int) -> int {
    (if corner_in(inside, n, x, y, z, 0, 0, 0) { 1int } else { 0 })
        + (if corner_in(inside, n, x, y, z, 0, 0, 1) { 2int } else { 0 })
        + (if corner_in(inside, n, x, y, z, 1, 0, 1) { 4int } else { 0 })
        + (if corner_in(inside, n, x, y, z, 1, 0, 0) { 8int } else { 0 })
        + (if corner_in(inside, n, x, y, z, 0, 1, 0) { 16int } else { 0 })
        + (if corner_in(inside, n, x, y, z, 0, 1, 1) { 32int } else { 0 })
        + (if corner_in(inside, n, x, y, z, 1, 1, 1) { 64int } else { 0 })
        + (if corner_in(inside, n, x, y, z, 1, 1, 0) { 128int } else { 0 })
}

/// The marching-cubes configuration index of a cell, which selects its
/// triangulation.
pub fn cube_configuration(n: usize, inside: &Vec<bool>, x: usize, y: usize, z: usize) -> (r: u8)
    requires
        2 <= n <= MAX_CELLS + 1,
        inside@.len() == n * n * n,
        x + 1 < n,
        y + 1 < n,
        z + 1 < n,
    ensures
        r as int == configuration(inside@, n as int, x as int, y as int, z as int),
{
    let bit = |b: bool, v: u8| -> (r: u8)
        ensures
            r == if b { v } else { 0 },
        {
            if b {
                v
            } else {
                0
            }
        };
    let c0 = bit(inside[point_id(n, x, y, z)], 1);
    let c1 = bit(inside[point_id(n, x, y, z + 1)], 2);
    let c2 = bit(inside[point_id(n, x + 1, y, z + 1)], 4);
    let c3 = bit(inside[point_id(n, x + 1, y, z)], 8);
    let c4 = bit(inside[point_id(n, x, y + 1, z)], 16);
    let c5 = bit(inside[point_id(n, x, y + 1, z + 1)], 32);
    let c6 = bit(inside[point_id(n, x + 1, y + 1, z + 1)], 64);
    let c7 = bit(inside[point_id(n, x + 1, y + 1, z)], 128);
    c0 + c1 + c2 + c3 + c4 + c5 + c6 + c7
}

/// A cell needs no triangles, configuration 0 or 255, exactly when its
/// corners all lie on one side of the isovalue: the same cells that emit no
/// surface-nets vertex.
pub proof fn lemma_flat_configuration(inside: Seq<bool>, n: int, x: int, y: int, z: int)
    ensures
        (configuration(inside, n, x, y, z) == 0 || configuration(inside, n, x, y, z) == 255) <==> !straddles(
            inside,
            n,
            x,
            y,
            z,
        ),
{
    reveal(straddles);
}

/// Position of lattice point `(x, y, z)` in a cube of side `n`, row-major.
pub open spec fn lat(n: int, x: int, y: int, z: int) -> int {
    (x * n + y) * n + z
}

/// Whether corner `(dx, dy, dz)` of the cell at `(x, y, z)` lies below the
/// isovalue.
pub open spec fn corner_in(inside: Seq<bool>, n: int, x: int, y: int, z: int, dx: int, dy: int, dz: int) -> bool {
    inside[lat(n, x + dx, y + dy, z + dz)]
}

/// The cell's eight corners lie on both sides of the isovalue.
#[verifier::opaque]
pub open spec fn straddles(inside: Seq<bool>, n: int, x: int, y: int, z: int) -> bool {
    let c0 = corner_in(inside, n, x, y, z, 0, 0, 0);
    let c1 = corner_in(inside, n, x, y, z, 1, 0, 0);
    let c2 = corner_in(inside, n, x, y, z, 0, 1, 0);
    let c3 = corner_in(inside, n, x, y, z, 1, 1, 0);
    let c4 = corner_in(inside, n, x, y, z, 0, 0, 1);
    let c5 = corner_in(inside, n, x, y, z, 1, 0, 1);
    let c6 = corner_in(inside, n, x, y, z, 0, 1, 1);
    let c7 = corner_in(inside, n, x, y, z, 1, 1, 1);
    !(c0 && c1 && c2 && c3 && c4 && c5 && c6 && c7) && (c0 || c1 || c2 || c3 || c4 || c5 || c6
        || c7)
}

/// Whether the cell at `(x, y, z)` of a lattice of side `n` has corners on
/// both sides of the isovalue; `inside` tells for each lattice point whether
/// its density lies below the isovalue.
pub fn is_surface_voxel(n: usize, inside: &Vec<bool>, x: usize, y: usize, z: usize) -> (r: bool)
    requires
        2 <= n <= MAX_CELLS + 1,
        inside@.len() == n * n * n,
        x + 1 < n,
        y + 1 < n,
        z + 1 < n,
    ensures
        r == straddles(inside@, n as int, x as int, y as int, z as int),
{
    let mut any_in = false;
    let mut all_in = true;
    let mut k: usize = 0;
    while k < 8
        invariant
            2 <= n <= MAX_CELLS + 1,
            inside@.len() == n * n * n,
            x + 1 < n,
            y + 1 < n,
            z + 1 < n,
            k <= 8,
            any_in == exists|k2: int| 0 <= k2 < k && #[trigger] corner_bit(inside@, n as int, x as int, y as int, z as int, k2),
            all_in == forall|k2: int| 0 <= k2 < k ==> #[trigger] corner_bit(inside@, n as int, x as int, y as int, z as int, k2),
        decreases 8 - k,
    {
        let dx = k % 2;
        let dy = (k / 2) % 2;
        let dz = (k / 4) % 2;
        let p = point_id(n, x + dx, y + dy, z + dz);
        let b = inside[p];
        proof {
            assert(b == corner_bit(inside@, n as int, x as int, y as int, z as int, k as int));
        }
        any_in = any_in || b;
        all_in = all_in && b;
        k += 1;
    }
    proof {
        reveal(straddles);
        let g = |k2: int| corner_bit(inside@, n as int, x as int, y as int, z as int, k2);
        assert(g(0) == corner_in(inside@, n as int, x as int, y as int, z as int, 0, 0, 0));
        assert(g(1) == corner_in(inside@, n as int, x as int, y as int, z as int, 1, 0, 0));
        assert(g(2) == corner_in(inside@, n as int, x as int, y as int, z as int, 0, 1, 0));
        assert(g(3) == corner_in(inside@, n as int, x as int, y as int, z as int, 1, 1, 0));
        assert(g(4) == corner_in(inside@, n as int, x as int, y as int, z as int, 0, 0, 1));
        assert(g(5) == corner_in(inside@, n as int, x as int, y as int, z as int, 1, 0, 1));
        assert(g(6) == corner_in(inside@, n as int, x as int, y as int, z as int, 0, 1, 1));
        assert(g(7) == corner_in(inside@, n as int, x as int, y as int, z as int, 1, 1, 1));
    }
    any_in && !all_in
}

/// Corner `k` of a cell, numbered with bit 0 for x, bit 1 for y and bit 2
/// for z.
pub open spec fn corner_bit(inside: Seq<bool>, n: int, x: int, y: int, z: int, k: int) -> bool {
    corner_in(inside, n, x, y, z, k % 2, (k / 2) % 2, (k / 4) % 2)
}

fn point_id(n: usize, x: usize, y: usize, z: usize) -> (r: usize)
    requires
        n <= MAX_CELLS + 1,
        x < n,
        y < n,
        z < n,
    ensures
        r == lat(n as int, x as int, y as int, z as int),
        r < n * n * n,
{
    assert((x * n + y) * n + z < n * n * n) by (nonlinear_arith)
        requires
            x < n,
            y < n,
            z < n,
    ;
    assert(n * n * n <= 130 * 130 * 130) by (nonlinear_arith)
        requires
            n <= 130,
    ;
    assert(x * n + y < n * n) by (nonlinear_arith)
        requires
            x < n,
            y < n,
    ;
    assert(n * n <= 130 * 130) by (nonlinear_arith)
        requires
            n <= 130,
    ;
    assert(x * n <= n * n) by (nonlinear_arith)
        requires
            x < n,
    ;
    assert((x * n + y) * n <= n * n * n) by (nonlinear_arith)
        requires
            x * n + y < n * n,
    ;
    let row = x * n + y;
    row * n + z
}

/// Cell coordinates of the `t`-th cell, in x-major scan order, of a block of
/// `c`³ cells.
pub open spec fn cell_at(c: int, t: int) -> (int, int, int) {
    ((t / c) / c, (t / c) % c, t % c)
}

/// Number of cells before the `t`-th that emit a vertex: the vertex index of
/// the `t`-th cell when it emits one.
pub open spec fn count_before(inside: Seq<bool>, n: int, t: nat) -> nat
    decreases t,
{
    if t == 0 {
        0
    } else {
        let p = cell_at(n - 1, t - 1);
        count_before(inside, n, (t - 1) as nat) + if straddles(inside, n, p.0, p.1, p.2) {
            1nat
        } else {
            0nat
        }
    }
}

/// Vertex index of the cell at `(x, y, z)`.
pub open spec fn vertex_id(inside: Seq<bool>, n: int, x: int, y: int, z: int) -> u32 {
    count_before(inside, n, lat(n - 1, x, y, z) as nat) as u32
}

/// The triangles that the vertex `i` of a cell closes with earlier cells:
/// `p*` tell whether the cell at `-x`, `-x-y`, `-y`, `-x-z`, `-z` and `-y-z`
/// has a vertex, `v*` give those vertices.
pub open spec fn tri_seq(
    i: u32,
    px: bool,
    vx: u32,
    pxy: bool,
    vxy: u32,
    py: bool,
    vy: u32,
    pxz: bool,
    vxz: u32,
    pz: bool,
    vz: u32,
    pyz: bool,
    vyz: u32,
) -> Seq<u32> {
    let with_x = if px {
        (if pxy {
            seq![i, vx, vxy] + if py {
                seq![i, vy, vxy]
            } else {
                Seq::empty()
            }
        } else {
            Seq::empty()
        }) + (if pxz {
            seq![i, vxz, vx] + if pz {
                seq![i, vz, vxz]
            } else {
                Seq::empty()
            }
        } else {
            Seq::empty()
        })
    } else {
        Seq::empty()
    };
    let with_y = if py && pyz {
        seq![i, vy, vyz] + if pz {
            seq![i, vz, vyz]
        } else {
            Seq::empty()
        }
    } else {
        Seq::empty()
    };
    with_x + with_y
}

/// The triangles emitted with the vertex of the cell at `(x, y, z)`.
#[verifier::opaque]
pub open spec fn cell_tris(inside: Seq<bool>, n: int, x: int, y: int, z: int) -> Seq<u32> {
    tri_seq(
        vertex_id(inside, n, x, y, z),
        x > 0 && straddles(inside, n, x - 1, y, z),
        vertex_id(inside, n, x - 1, y, z),
        x > 0 && y > 0 && straddles(inside, n, x - 1, y - 1, z),
        vertex_id(inside, n, x - 1, y - 1, z),
        y > 0 && straddles(inside, n, x, y - 1, z),
        vertex_id(inside, n, x, y - 1, z),
        x > 0 && z > 0 && straddles(inside, n, x - 1, y, z - 1),
        vertex_id(inside, n, x - 1, y, z - 1),
        z > 0 && straddles(inside, n, x, y, z - 1),
        vertex_id(inside, n, x, y, z - 1),
        y > 0 && z > 0 && straddles(inside, n, x, y - 1, z - 1),
        vertex_id(inside, n, x, y - 1, z - 1),
    )
}

/// The cells that emit vertices and the triangle indices, after scanning the
/// first `t` cells.
pub open spec fn topology_upto(inside: Seq<bool>, n: int, t: nat) -> (Seq<(usize, usize, usize)>, Seq<u32>)
    decreases t,
{
    if t == 0 {
        (Seq::empty(), Seq::empty())
    } else {
        let prev = topology_upto(inside, n, (t - 1) as nat);
        let p = cell_at(n - 1, t - 1);
        if straddles(inside, n, p.0, p.1, p.2) {
            (prev.0.push((p.0 as usize, p.1 as usize, p.2 as usize)), prev.1 + cell_tris(inside, n, p.0, p.1, p.2))
        } else {
            prev
        }
    }
}

/// Connectivity of a surface-nets mesh: one vertex per cell whose corners
/// straddle the isovalue, and the triangles that join it to the vertices of
/// earlier neighbouring cells.
pub struct SurfaceTopology {
    /// The cell of each vertex, in vertex order.
    pub cells: Vec<(usize, usize, usize)>,
    /// Three vertex indices per triangle.
    pub indices: Vec<u32>,
}

/// All cells of a lattice of side `n`, scanned in x-major order.
pub open spec fn topology(inside: Seq<bool>, n: int) -> (Seq<(usize, usize, usize)>, Seq<u32>) {
    topology_upto(inside, n, ((n - 1) * (n - 1) * (n - 1)) as nat)
}

proof fn lemma_cell_at(c: int, x: int, y: int, z: int)
    requires
        0 <= x < c,
        0 <= y < c,
        0 <= z < c,
    ensures
        cell_at(c, lat(c, x, y, z)) == (x, y, z),
        0 <= lat(c, x, y, z) < c * c * c,
{
    let t = (x * c + y) * c + z;
    lemma_fundamental_div_mod_converse_div(t, c, x * c + y, z);
    lemma_fundamental_div_mod_converse_mod(t, c, x * c + y, z);
    lemma_fundamental_div_mod_converse_div(x * c + y, c, x, y);
    lemma_fundamental_div_mod_converse_mod(x * c + y, c, x, y);
    assert(0 <= t < c * c * c) by (nonlinear_arith)
        requires
            t == (x * c + y) * c + z,
            0 <= x < c,
            0 <= y < c,
            0 <= z < c,
    ;
}

pub(crate) proof fn lemma_cell_of(c: int, t: int)
    requires
        0 <= t < c * c * c,
        c > 0,
    ensures
        0 <= cell_at(c, t).0 < c,
        0 <= cell_at(c, t).1 < c,
        0 <= cell_at(c, t).2 < c,
        lat(c, cell_at(c, t).0, cell_at(c, t).1, cell_at(c, t).2) == t,
{
    let q = t / c;
    let z = t % c;
    let x = q / c;
    let y = q % c;
    vstd::arithmetic::div_mod::lemma_fundamental_div_mod(t, c);
    vstd::arithmetic::div_mod::lemma_fundamental_div_mod(q, c);
    assert(t == q * c + z) by (nonlinear_arith)
        requires
            t == c * q + z,
    ;
    assert(q == x * c + y) by (nonlinear_arith)
        requires
            q == c * x + y,
    ;
    assert(0 <= q < c * c) by (nonlinear_arith)
        requires
            t == q * c + z,
            0 <= z < c,
            0 <= t < c * c * c,
    ;
    assert(0 <= x < c) by (nonlinear_arith)
        requires
            q == x * c + y,
            0 <= y < c,
            0 <= q < c * c,
    ;
}

proof fn lemma_lat_before(c: int, x: int, y: int, z: int, a: int, b: int, d: int)
    requires
        0 <= a <= x < c,
        0 <= b <= y < c,
        0 <= d <= z < c,
        (a, b, d) != (x, y, z),
    ensures
        lat(c, a, b, d) < lat(c, x, y, z),
{
    assert((a * c + b) * c + d < (x * c + y) * c + z) by (nonlinear_arith)
        requires
            0 <= a <= x < c,
            0 <= b <= y < c,
            0 <= d <= z < c,
            a < x || b < y || d < z,
    ;
}

proof fn lemma_count_bound(inside: Seq<bool>, n: int, t: nat)
    ensures
        count_before(inside, n, t) <= t,
    decreases t,
{
    if t > 0 {
        lemma_count_bound(inside, n, (t - 1) as nat);
    }
}

fn tri_vec(
    i: u32,
    px: bool,
    vx: u32,
    pxy: bool,
    vxy: u32,
    py: bool,
    vy: u32,
    pxz: bool,
    vxz: u32,
    pz: bool,
    vz: u32,
    pyz: bool,
    vyz: u32,
) -> (r: Vec<u32>)
    ensures
        r@ == tri_seq(i, px, vx, pxy, vxy, py, vy, pxz, vxz, pz, vz, pyz, vyz),
{
    let mut r: Vec<u32> = Vec::new();
    if px {
        if pxy {
            r.push(i);
            r.push(vx);
            r.push(vxy);
            if py {
                r.push(i);
                r.push(vy);
                r.push(vxy);
            }
        }
        if pxz {
            r.push(i);
            r.push(vxz);
            r.push(vx);
            if pz {
                r.push(i);
                r.push(vz);
                r.push(vxz);
            }
        }
    }
    if py && pyz {
        r.push(i);
        r.push(vy);
        r.push(vyz);
        if pz {
            r.push(i);
            r.push(vz);
            r.push(vyz);
        }
    }
    assert(r@ =~= tri_seq(i, px, vx, pxy, vxy, py, vy, pxz, vxz, pz, vz, pyz, vyz));
    r
}

/// Index of cell `(x, y, z)` in the scan of a block of `c`³ cells.
fn cell_id(c: usize, x: usize, y: usize, z: usize) -> (r: usize)
    requires
        c <= MAX_CELLS,
        x < c,
        y < c,
        z < c,
    ensures
        r == lat(c as int, x as int, y as int, z as int),
{
    point_id(c, x, y, z)
}

/// Surface-nets connectivity of a lattice of side `n` whose point
/// `(x, y, z)` lies below the isovalue when `inside[(x * n + y) * n + z]`.
/// Scans the `(n - 1)`³ cells in x-major order; each cell whose corners
/// straddle the isovalue gets the next vertex index, and joins it to the
/// vertices of the cells before it at `-x`, `-y` and `-z` in two triangles
/// per shared edge. Cells entirely on one side emit neither vertex nor
/// triangle.
pub fn surface_topology(n: usize, inside: &Vec<bool>) -> (r: SurfaceTopology)
    requires
        2 <= n <= MAX_CELLS + 1,
        inside@.len() == n * n * n,
    ensures
        (r.cells@, r.indices@) == topology(inside@, n as int),
        r.cells@.len() == count_before(inside@, n as int, ((n - 1) * (n - 1) * (n - 1)) as nat),
        cells_straddle(inside@, n as int, r.cells@),
        r.indices@.len() % 3 == 0,
        all_below(r.indices@, r.cells@.len() as int),
{
    let c = n - 1;
    let ghost ci = c as int;
    let ghost ins = inside@;
    let ghost ni = n as int;
    assert(c * c * c <= 129 * 129 * 129) by (nonlinear_arith)
        requires
            c <= 129,
    ;
    assert(c * c <= 129 * 129) by (nonlinear_arith)
        requires
            c <= 129,
    ;
    let total = c * c * c;
    let mut cells: Vec<(usize, usize, usize)> = Vec::new();
    let mut indices: Vec<u32> = Vec::new();
    let mut has_vertex: Vec<bool> = Vec::new();
    let mut index_grid: Vec<u32> = Vec::new();
    let mut count: u32 = 0;
    let mut t: usize = 0;
    while t < total
        invariant
            2 <= n <= MAX_CELLS + 1,
            c == n - 1,
            ci == c,
            ni == n,
            ins == inside@,
            inside@.len() == n * n * n,
            total == c * c * c,
            total <= 129 * 129 * 129,
            t <= total,
            has_vertex@.len() == t,
            index_grid@.len() == t,
            count == count_before(ins, ni, t as nat),
            forall|t2: int|
                0 <= t2 < t ==> #[trigger] has_vertex@[t2] == straddles(
                    ins,
                    ni,
                    cell_at(ci, t2).0,
                    cell_at(ci, t2).1,
                    cell_at(ci, t2).2,
                ),
            forall|t2: int|
                0 <= t2 < t && has_vertex@[t2] ==> #[trigger] index_grid@[t2] == count_before(
                    ins,
                    ni,
                    t2 as nat,
                ),
            (cells@, indices@) == topology_upto(ins, ni, t as nat),
        decreases total - t,
    {
        let x = t / c / c;
        let y = (t / c) % c;
        let z = t % c;
        proof {
            lemma_cell_of(ci, t as int);
            lemma_count_bound(ins, ni, t as nat);
        }
        if is_surface_voxel(n, inside, x, y, z) {
            proof {
                assert(lat(ci, x as int, y as int, z as int) == t);
                assert(vertex_id(ins, ni, x as int, y as int, z as int) == count);
                if x > 0 {
                    lemma_cell_at(ci, x - 1, y as int, z as int);
                    lemma_lat_before(ci, x as int, y as int, z as int, x - 1, y as int, z as int);
                }
                if x > 0 && y > 0 {
                    lemma_cell_at(ci, x - 1, y - 1, z as int);
                    lemma_lat_before(ci, x as int, y as int, z as int, x - 1, y - 1, z as int);
                }
                if y > 0 {
                    lemma_cell_at(ci, x as int, y - 1, z as int);
                    lemma_lat_before(ci, x as int, y as int, z as int, x as int, y - 1, z as int);
                }
                if x > 0 && z > 0 {
                    lemma_cell_at(ci, x - 1, y as int, z - 1);
                    lemma_lat_before(ci, x as int, y as int, z as int, x - 1, y as int, z - 1);
                }
                if z > 0 {
                    lemma_cell_at(ci, x as int, y as int, z - 1);
                    lemma_lat_before(ci, x as int, y as int, z as int, x as int, y as int, z - 1);
                }
                if y > 0 && z > 0 {
                    lemma_cell_at(ci, x as int, y - 1, z - 1);
                    lemma_lat_before(ci, x as int, y as int, z as int, x as int, y - 1, z - 1);
                }
            }
            let px = x > 0 && has_vertex[cell_id(c, x - 1, y, z)];
            let pxy = x > 0 && y > 0 && has_vertex[cell_id(c, x - 1, y - 1, z)];
            let py = y > 0 && has_vertex[cell_id(c, x, y - 1, z)];
            let pxz = x > 0 && z > 0 && has_vertex[cell_id(c, x - 1, y, z - 1)];
            let pz = z > 0 && has_vertex[cell_id(c, x, y, z - 1)];
            let pyz = y > 0 && z > 0 && has_vertex[cell_id(c, x, y - 1, z - 1)];
            let vx = if px { index_grid[cell_id(c, x - 1, y, z)] } else { 0 };
            let vxy = if pxy { index_grid[cell_id(c, x - 1, y - 1, z)] } else { 0 };
            let vy = if py { index_grid[cell_id(c, x, y - 1, z)] } else { 0 };
            let vxz = if pxz { index_grid[cell_id(c, x - 1, y, z - 1)] } else { 0 };
            let vz = if pz { index_grid[cell_id(c, x, y, z - 1)] } else { 0 };
            let vyz = if pyz { index_grid[cell_id(c, x, y - 1, z - 1)] } else { 0 };
            let mut tris = tri_vec(count, px, vx, pxy, vxy, py, vy, pxz, vxz, pz, vz, pyz, vyz);
            proof {
                reveal(cell_tris);
                assert(tris@ == cell_tris(ins, ni, x as int, y as int, z as int));
            }
            cells.push((x, y, z));
            indices.append(&mut tris);
            has_vertex.push(true);
            index_grid.push(count);
            count = count + 1;
        } else {
            has_vertex.push(false);
            index_grid.push(0);
        }
        t += 1;
    }
    proof {
        lemma_topology_well_formed(ins, ni, total as nat);
    }
    SurfaceTopology { cells, indices }
}

proof fn lemma_count_mono(inside: Seq<bool>, n: int, a: nat, b: nat)
    requires
        a <= b,
    ensures
        count_before(inside, n, a) <= count_before(inside, n, b),
    decreases b - a,
{
    if a < b {
        lemma_count_mono(inside, n, a, (b - 1) as nat);
    }
}

proof fn lemma_neighbour_id(inside: Seq<bool>, n: int, x: int, y: int, z: int, a: int, b: int, d: int)
    requires
        2 <= n <= MAX_CELLS + 1,
        0 <= a <= x < n - 1,
        0 <= b <= y < n - 1,
        0 <= d <= z < n - 1,
        (a, b, d) != (x, y, z),
        straddles(inside, n, a, b, d),
    ensures
        (vertex_id(inside, n, a, b, d) as int) < count_before(inside, n, lat(n - 1, x, y, z) as nat),
{
    let c = n - 1;
    lemma_lat_before(c, x, y, z, a, b, d);
    lemma_cell_at(c, a, b, d);
    lemma_cell_at(c, x, y, z);
    let ta = lat(c, a, b, d);
    assert(count_before(inside, n, (ta + 1) as nat) == count_before(inside, n, ta as nat) + 1);
    lemma_count_mono(inside, n, (ta + 1) as nat, lat(c, x, y, z) as nat);
    lemma_count_bound(inside, n, ta as nat);
    assert(count_before(inside, n, ta as nat) < c * c * c);
    assert(c * c * c <= 129 * 129 * 129) by (nonlinear_arith)
        requires
            c <= 129,
    ;
}

pub open spec fn all_below(s: Seq<u32>, b: int) -> bool {
    forall|k: int| 0 <= k < s.len() ==> (#[trigger] s[k] as int) < b
}

proof fn lemma_concat_below(a: Seq<u32>, c: Seq<u32>, b: int)
    requires
        all_below(a, b),
        all_below(c, b),
    ensures
        all_below(a + c, b),
        (a + c).len() == a.len() + c.len(),
{
    assert forall|k: int| 0 <= k < (a + c).len() implies (#[trigger] (a + c)[k] as int) < b by {
        if k < a.len() {
            assert((a + c)[k] == a[k]);
        } else {
            assert((a + c)[k] == c[k - a.len()]);
        }
    }
}

proof fn lemma_triple_below(x: u32, y: u32, z: u32, b: int)
    requires
        (x as int) < b,
        (y as int) < b,
        (z as int) < b,
    ensures
        all_below(seq![x, y, z], b),
{
    let s = seq![x, y, z];
    assert forall|k: int| 0 <= k < 3 implies (#[trigger] s[k] as int) < b by {
        if k == 0 {
            assert(s[k] == x);
        } else if k == 1 {
            assert(s[k] == y);
        } else {
            assert(s[k] == z);
        }
    }
}

proof fn lemma_tri_seq_below(
    i: u32,
    px: bool,
    vx: u32,
    pxy: bool,
    vxy: u32,
    py: bool,
    vy: u32,
    pxz: bool,
    vxz: u32,
    pz: bool,
    vz: u32,
    pyz: bool,
    vyz: u32,
    b: int,
)
    requires
        (i as int) < b,
        px ==> (vx as int) < b,
        pxy ==> (vxy as int) < b,
        py ==> (vy as int) < b,
        pxz ==> (vxz as int) < b,
        pz ==> (vz as int) < b,
        pyz ==> (vyz as int) < b,
    ensures
        all_below(tri_seq(i, px, vx, pxy, vxy, py, vy, pxz, vxz, pz, vz, pyz, vyz), b),
        tri_seq(i, px, vx, pxy, vxy, py, vy, pxz, vxz, pz, vz, pyz, vyz).len() % 3 == 0,
{
    let e = Seq::<u32>::empty();
    assert(all_below(e, b));
    let a1 = if pxy {
        seq![i, vx, vxy] + if py {
            seq![i, vy, vxy]
        } else {
            e
        }
    } else {
        e
    };
    let a2 = if pxz {
        seq![i, vxz, vx] + if pz {
            seq![i, vz, vxz]
        } else {
            e
        }
    } else {
        e
    };
    let with_x = if px {
        a1 + a2
    } else {
        e
    };
    let with_y = if py && pyz {
        seq![i, vy, vyz] + if pz {
            seq![i, vz, vyz]
        } else {
            e
        }
    } else {
        e
    };
    if px {
        if pxy {
            lemma_triple_below(i, vx, vxy, b);
            if py {
                lemma_triple_below(i, vy, vxy, b);
            }
            lemma_concat_below(seq![i, vx, vxy], if py { seq![i, vy, vxy] } else { e }, b);
        }
        if pxz {
            lemma_triple_below(i, vxz, vx, b);
            if pz {
                lemma_triple_below(i, vz, vxz, b);
            }
            lemma_concat_below(seq![i, vxz, vx], if pz { seq![i, vz, vxz] } else { e }, b);
        }
        lemma_concat_below(a1, a2, b);
    }
    if py && pyz {
        lemma_triple_below(i, vy, vyz, b);
        if pz {
            lemma_triple_below(i, vz, vyz, b);
        }
        lemma_concat_below(seq![i, vy, vyz], if pz { seq![i, vz, vyz] } else { e }, b);
    }
    lemma_concat_below(with_x, with_y, b);
    assert(tri_seq(i, px, vx, pxy, vxy, py, vy, pxz, vxz, pz, vz, pyz, vyz) == with_x + with_y);
}

proof fn lemma_cell_tris_bounded(inside: Seq<bool>, n: int, x: int, y: int, z: int)
    requires
        2 <= n <= MAX_CELLS + 1,
        0 <= x < n - 1,
        0 <= y < n - 1,
        0 <= z < n - 1,
        straddles(inside, n, x, y, z),
    ensures
        cell_tris(inside, n, x, y, z).len() % 3 == 0,
        all_below(cell_tris(inside, n, x, y, z), count_before(inside, n, (lat(n - 1, x, y, z) + 1) as nat) as int),
{
    let c = n - 1;
    let t = lat(c, x, y, z);
    lemma_cell_at(c, x, y, z);
    lemma_count_bound(inside, n, t as nat);
    assert(c * c * c <= 129 * 129 * 129) by (nonlinear_arith)
        requires
            c <= 129,
    ;
    let cnt = count_before(inside, n, (t + 1) as nat);
    assert(vertex_id(inside, n, x, y, z) as int == cnt - 1);
    if x > 0 && straddles(inside, n, x - 1, y, z) {
        lemma_neighbour_id(inside, n, x, y, z, x - 1, y, z);
    }
    if x > 0 && y > 0 && straddles(inside, n, x - 1, y - 1, z) {
        lemma_neighbour_id(inside, n, x, y, z, x - 1, y - 1, z);
    }
    if y > 0 && straddles(inside, n, x, y - 1, z) {
        lemma_neighbour_id(inside, n, x, y, z, x, y - 1, z);
    }
    if x > 0 && z > 0 && straddles(inside, n, x - 1, y, z - 1) {
        lemma_neighbour_id(inside, n, x, y, z, x - 1, y, z - 1);
    }
    if z > 0 && straddles(inside, n, x, y, z - 1) {
        lemma_neighbour_id(inside, n, x, y, z, x, y, z - 1);
    }
    if y > 0 && z > 0 && straddles(inside, n, x, y - 1, z - 1) {
        lemma_neighbour_id(inside, n, x, y, z, x, y - 1, z - 1);
    }
    reveal(cell_tris);
    lemma_tri_seq_below(
        vertex_id(inside, n, x, y, z),
        x > 0 && straddles(inside, n, x - 1, y, z),
        vertex_id(inside, n, x - 1, y, z),
        x > 0 && y > 0 && straddles(inside, n, x - 1, y - 1, z),
        vertex_id(inside, n, x - 1, y - 1, z),
        y > 0 && straddles(inside, n, x, y - 1, z),
        vertex_id(inside, n, x, y - 1, z),
        x > 0 && z > 0 && straddles(inside, n, x - 1, y, z - 1),
        vertex_id(inside, n, x - 1, y, z - 1),
        z > 0 && straddles(inside, n, x, y, z - 1),
        vertex_id(inside, n, x, y, z - 1),
        y > 0 && z > 0 && straddles(inside, n, x, y - 1, z - 1),
        vertex_id(inside, n, x, y - 1, z - 1),
        cnt as int,
    );
}

/// Every listed cell straddles the isovalue.
pub open spec fn cells_straddle(inside: Seq<bool>, n: int, cells: Seq<(usize, usize, usize)>) -> bool {
    forall|m: int|
        0 <= m < cells.len() ==> {
            let p = #[trigger] cells[m];
            straddles(inside, n, p.0 as int, p.1 as int, p.2 as int)
        }
}

proof fn lemma_below_weaken(s: Seq<u32>, a: int, b: int)
    requires
        all_below(s, a),
        a <= b,
    ensures
        all_below(s, b),
{
}

proof fn lemma_push_straddling(inside: Seq<bool>, n: int, cells: Seq<(usize, usize, usize)>, p: (usize, usize, usize))
    requires
        cells_straddle(inside, n, cells),
        straddles(inside, n, p.0 as int, p.1 as int, p.2 as int),
    ensures
        cells_straddle(inside, n, cells.push(p)),
{
    assert forall|m: int| 0 <= m < cells.push(p).len() implies {
        let q = #[trigger] cells.push(p)[m];
        straddles(inside, n, q.0 as int, q.1 as int, q.2 as int)
    } by {
        if m < cells.len() {
            assert(cells.push(p)[m] == cells[m]);
        }
    }
}

/// What the scan of the first `t` cells has emitted is a well-formed
/// triangle list: one vertex per straddling cell, three indices per
/// triangle, and every index names an emitted vertex.
pub proof fn lemma_topology_well_formed(inside: Seq<bool>, n: int, t: nat)
    requires
        2 <= n <= MAX_CELLS + 1,
        t <= (n - 1) * (n - 1) * (n - 1),
    ensures
        topology_upto(inside, n, t).0.len() == count_before(inside, n, t),
        topology_upto(inside, n, t).1.len() % 3 == 0,
        all_below(topology_upto(inside, n, t).1, topology_upto(inside, n, t).0.len() as int),
        cells_straddle(inside, n, topology_upto(inside, n, t).0),
    decreases t,
{
    if t > 0 {
        let c = n - 1;
        let t1 = (t - 1) as nat;
        lemma_topology_well_formed(inside, n, t1);
        lemma_cell_of(c, t1 as int);
        let p = cell_at(c, t1 as int);
        let prev = topology_upto(inside, n, t1);
        if straddles(inside, n, p.0, p.1, p.2) {
            lemma_cell_tris_bounded(inside, n, p.0, p.1, p.2);
            let tris = cell_tris(inside, n, p.0, p.1, p.2);
            let cnt = count_before(inside, n, t) as int;
            assert(lat(c, p.0, p.1, p.2) + 1 == t);
            lemma_below_weaken(prev.1, prev.0.len() as int, cnt);
            lemma_concat_below(prev.1, tris, cnt);
            lemma_push_straddling(inside, n, prev.0, (p.0 as usize, p.1 as usize, p.2 as usize));
        }
    }
}

/// A cell whose eight corners all lie below the isovalue, or all lie above
/// it, emits neither a vertex nor a triangle: scanning it leaves both lists
/// as they were, and no vertex of the finished topology sits in it.
pub proof fn lemma_flat_cell_emits_nothing(inside: Seq<bool>, n: int, x: int, y: int, z: int)
    requires
        2 <= n <= MAX_CELLS + 1,
        0 <= x < n - 1,
        0 <= y < n - 1,
        0 <= z < n - 1,
        (forall|k: int| 0 <= k < 8 ==> #[trigger] corner_bit(inside, n, x, y, z, k)) || (forall|k: int|
            0 <= k < 8 ==> !#[trigger] corner_bit(inside, n, x, y, z, k)),
    ensures
        topology_upto(inside, n, (lat(n - 1, x, y, z) + 1) as nat) == topology_upto(
            inside,
            n,
            lat(n - 1, x, y, z) as nat,
        ),
        forall|m: int|
            0 <= m < topology(inside, n).0.len() ==> #[trigger] topology(inside, n).0[m] != (
                x as usize,
                y as usize,
                z as usize,
            ),
{
    let c = n - 1;
    assert(corner_bit(inside, n, x, y, z, 0) == corner_in(inside, n, x, y, z, 0, 0, 0));
    assert(corner_bit(inside, n, x, y, z, 1) == corner_in(inside, n, x, y, z, 1, 0, 0));
    assert(corner_bit(inside, n, x, y, z, 2) == corner_in(inside, n, x, y, z, 0, 1, 0));
    assert(corner_bit(inside, n, x, y, z, 3) == corner_in(inside, n, x, y, z, 1, 1, 0));
    assert(corner_bit(inside, n, x, y, z, 4) == corner_in(inside, n, x, y, z, 0, 0, 1));
    assert(corner_bit(inside, n, x, y, z, 5) == corner_in(inside, n, x, y, z, 1, 0, 1));
    assert(corner_bit(inside, n, x, y, z, 6) == corner_in(inside, n, x, y, z, 0, 1, 1));
    assert(corner_bit(inside, n, x, y, z, 7) == corner_in(inside, n, x, y, z, 1, 1, 1));
    reveal(straddles);
    assert(!straddles(inside, n, x, y, z));
    lemma_cell_at(c, x, y, z);
    assert(c * c * c >= 0) by (nonlinear_arith)
        requires
            c >= 1,
    ;
    lemma_topology_well_formed(inside, n, (c * c * c) as nat);
}

proof fn lemma_cell_outside(inside: Seq<bool>, n: int, x: int, y: int, z: int)
    requires
        2 <= n,
        0 <= x < n - 1,
        0 <= y < n - 1,
        0 <= z < n - 1,
        inside.len() == n * n * n,
        forall|k: int| 0 <= k < inside.len() ==> !#[trigger] inside[k],
    ensures
        !straddles(inside, n, x, y, z),
{
    reveal(straddles);
    lemma_cell_at(n, x, y, z);
    lemma_cell_at(n, x + 1, y, z);
    lemma_cell_at(n, x, y + 1, z);
    lemma_cell_at(n, x + 1, y + 1, z);
    lemma_cell_at(n, x, y, z + 1);
    lemma_cell_at(n, x + 1, y, z + 1);
    lemma_cell_at(n, x, y + 1, z + 1);
    lemma_cell_at(n, x + 1, y + 1, z + 1);
}

proof fn lemma_none_counted(inside: Seq<bool>, n: int, t: nat)
    requires
        2 <= n,
        t <= (n - 1) * (n - 1) * (n - 1),
        inside.len() == n * n * n,
        forall|k: int| 0 <= k < inside.len() ==> !#[trigger] inside[k],
    ensures
        count_before(inside, n, t) == 0,
    decreases t,
{
    if t > 0 {
        lemma_none_counted(inside, n, (t - 1) as nat);
        lemma_cell_of(n - 1, t - 1);
        let p = cell_at(n - 1, t - 1);
        lemma_cell_outside(inside, n, p.0, p.1, p.2);
    }
}

/// A block whose every sample lies outside the surface, such as a chunk
/// wholly above flat ground, yields no vertex and no triangle.
pub proof fn lemma_no_surface_above_ground(inside: Seq<bool>, n: int)
    requires
        2 <= n <= MAX_CELLS + 1,
        inside.len() == n * n * n,
        forall|k: int| 0 <= k < inside.len() ==> !#[trigger] inside[k],
    ensures
        topology(inside, n).0.len() == 0,
        topology(inside, n).1.len() == 0,
{
    let c = n - 1;
    assert(c * c * c >= 0) by (nonlinear_arith)
        requires
            c >= 1,
    ;
    let t = (c * c * c) as nat;
    lemma_topology_well_formed(inside, n, t);
    lemma_none_counted(inside, n, t);
    let idx = topology(inside, n).1;
    if idx.len() > 0 {
        assert((idx[0] as int) < 0);
    }
}

/// Extraction depends on the sampled signs alone: run twice on the same
/// samples it gives the same vertices and the same indices, hence the same
/// vertex and index counts.
pub proof fn lemma_extraction_repeatable(a: Seq<bool>, b: Seq<bool>, n: int)
    requires
        a == b,
    ensures
        topology(a, n) == topology(b, n),
        topology(a, n).0.len() == topology(b, n).0.len(),
        topology(a, n).1.len() == topology(b, n).1.len(),
{
}

} // verus!
