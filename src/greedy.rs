use vstd::prelude::*;
use vstd::arithmetic::div_mod::{lemma_fundamental_div_mod, lemma_fundamental_div_mod_converse_div, lemma_fundamental_div_mod_converse_mod};

use crate::voxels::{Block, BlockGrid, MAX_GRID_SIZE};

verus! {

/// One merged rectangle of block faces. It lies in the plane
/// `axis = slice`, the boundary between voxel layers `slice - 1` and
/// `slice` along `axis`, and spans `width` faces along the first in-plane
/// axis `(axis + 1) % 3` from `u` and `height` faces along the second
/// in-plane axis `(axis + 2) % 3` from `v`.
#[derive(Clone, Copy, Debug, PartialEq, Eq, Structural)]
pub struct Quad {
    pub axis: usize,
    pub slice: usize,
    pub u: usize,
    pub v: usize,
    pub width: usize,
    pub height: usize,
    /// The face looks towards increasing `axis`: the solid voxel lies below
    /// the plane.
    pub flip: bool,
    pub block_type: u32,
}

/// The voxel at depth `t` along axis `d` and in-plane position `(i, j)`.
pub open spec fn axis_point(d: int, t: int, i: int, j: int) -> (int, int, int) {
    if d == 0 {
        (t, i, j)
    } else if d == 1 {
        (j, t, i)
    } else {
        (i, j, t)
    }
}

pub open spec fn solid_on_axis(g: BlockGrid, d: int, t: int, i: int, j: int) -> bool {
    let p = axis_point(d, t, i, j);
    g.solid(p.0, p.1, p.2)
}

pub open spec fn type_on_axis(g: BlockGrid, d: int, t: int, i: int, j: int) -> u32 {
    let p = axis_point(d, t, i, j);
    match g.at(p.0, p.1, p.2) {
        Some(t) => t,
        None => 0,
    }
}

/// A face position: plane `s` (from `0` to the grid side) across axis `d`,
/// in-plane cell `(i, j)`.
pub open spec fn face_in_range(g: BlockGrid, d: int, s: int, i: int, j: int) -> bool {
    0 <= d < 3 && 0 <= s <= g.side() && 0 <= i < g.side() && 0 <= j < g.side()
}

/// A face is exposed where exactly one of the two voxels it separates is
/// solid; positions outside the grid count as empty.
pub open spec fn exposed(g: BlockGrid, d: int, s: int, i: int, j: int) -> bool {
    face_in_range(g, d, s, i, j) && solid_on_axis(g, d, s - 1, i, j) != solid_on_axis(g, d, s, i, j)
}

/// The exposed face looks towards increasing `d`.
pub open spec fn face_flip(g: BlockGrid, d: int, s: int, i: int, j: int) -> bool {
    !solid_on_axis(g, d, s, i, j)
}

/// The type of the solid voxel behind the face.
pub open spec fn face_type(g: BlockGrid, d: int, s: int, i: int, j: int) -> u32 {
    if solid_on_axis(g, d, s - 1, i, j) {
        type_on_axis(g, d, s - 1, i, j)
    } else {
        type_on_axis(g, d, s, i, j)
    }
}

pub open spec fn quad_covers(q: Quad, d: int, s: int, i: int, j: int) -> bool {
    q.axis == d && q.slice == s && q.u <= i < q.u + q.width && q.v <= j < q.v + q.height
}

pub open spec fn covered_by(qs: Seq<Quad>, d: int, s: int, i: int, j: int) -> bool {
    exists|m: int| 0 <= m < qs.len() && #[trigger] quad_covers(qs[m], d, s, i, j)
}

/// The quads cover exactly the exposed faces of the grid, each face once and
/// with the face's orientation and block type.
pub open spec fn exact_cover(g: BlockGrid, qs: Seq<Quad>) -> bool {
    &&& forall|m: int, d: int, s: int, i: int, j: int|
        0 <= m < qs.len() && #[trigger] quad_covers(qs[m], d, s, i, j) ==> {
            &&& exposed(g, d, s, i, j)
            &&& qs[m].flip == face_flip(g, d, s, i, j)
            &&& qs[m].block_type == face_type(g, d, s, i, j)
        }
    &&& forall|d: int, s: int, i: int, j: int|
        #![trigger exposed(g, d, s, i, j)]
        exposed(g, d, s, i, j) ==> covered_by(qs, d, s, i, j)
    &&& forall|m1: int, m2: int, d: int, s: int, i: int, j: int|
        0 <= m1 < qs.len() && 0 <= m2 < qs.len() && m1 != m2 && #[trigger] quad_covers(
            qs[m1],
            d,
            s,
            i,
            j,
        ) ==> !#[trigger] quad_covers(qs[m2], d, s, i, j)
}

/// Position of in-plane cell `(i, j)` in a slice mask of side `n`.
pub open spec fn ix(n: int, i: int, j: int) -> int {
    j * n + i
}

proof fn lemma_ix(n: int, i: int, j: int)
    requires
        0 <= i < n,
        0 <= j < n,
    ensures
        0 <= ix(n, i, j) < n * n,
        ix(n, i, j) % n == i,
        ix(n, i, j) / n == j,
{
    assert(0 <= j * n + i < n * n) by (nonlinear_arith)
        requires
            0 <= i < n,
            0 <= j < n,
    ;
    lemma_fundamental_div_mod_converse_mod(j * n + i, n, j, i);
    lemma_fundamental_div_mod_converse_div(j * n + i, n, j, i);
}

proof fn lemma_ix_inj(n: int, i: int, j: int, i2: int, j2: int)
    requires
        0 <= i < n,
        0 <= j < n,
        0 <= i2 < n,
        0 <= j2 < n,
        ix(n, i, j) == ix(n, i2, j2),
    ensures
        i == i2,
        j == j2,
{
    lemma_ix(n, i, j);
    lemma_ix(n, i2, j2);
}

proof fn lemma_ix_of(n: int, k: int)
    requires
        0 <= k < n * n,
        n > 0,
    ensures
        0 <= k % n < n,
        0 <= k / n < n,
        k == ix(n, k % n, k / n),
{
    lemma_fundamental_div_mod(k, n);
    let q = k / n;
    let r = k % n;
    assert(0 <= r < n);
    assert(k == q * n + r) by (nonlinear_arith)
        requires
            k == n * q + r,
    ;
    assert(0 <= q < n) by (nonlinear_arith)
        requires
            k == q * n + r,
            0 <= r < n,
            0 <= k < n * n,
    ;
}

proof fn lemma_ix_shift(n: int, i: int, j: int, t: int, l: int)
    ensures
        ix(n, i + t, j + l) == ix(n, i, j) + t + l * n,
{
    assert((j + l) * n + (i + t) == j * n + i + t + l * n) by (nonlinear_arith);
}

proof fn lemma_ix_row(n: int, i: int, j: int, w: int, i2: int, j2: int)
    requires
        0 <= i,
        i + w <= n,
        0 <= j < n,
        0 <= i2 < n,
        0 <= j2 < n,
        ix(n, i, j) <= ix(n, i2, j2) < ix(n, i, j) + w,
    ensures
        j2 == j,
        i <= i2 < i + w,
{
    assert(j2 == j) by (nonlinear_arith)
        requires
            0 <= i,
            i + w <= n,
            0 <= i2 < n,
            j * n + i <= j2 * n + i2 < j * n + i + w,
    {
        if j2 > j {
            assert(j2 * n >= (j + 1) * n) by (nonlinear_arith)
                requires
                    j2 >= j + 1,
                    n >= 0,
            ;
        } else if j2 < j {
            assert(j * n >= (j2 + 1) * n) by (nonlinear_arith)
                requires
                    j >= j2 + 1,
                    n >= 0,
            ;
        }
    }
}

pub open spec fn slice_quads_ok(qs: Seq<Quad>, d: int, s: int, n: int) -> bool {
    forall|m: int|
        0 <= m < qs.len() ==> {
            &&& (#[trigger] qs[m]).axis == d
            &&& qs[m].slice == s
            &&& qs[m].width >= 1
            &&& qs[m].height >= 1
            &&& qs[m].u + qs[m].width <= n
            &&& qs[m].v + qs[m].height <= n
        }
}

/// Every face that a quad covers is set in the slice mask and carries the
/// quad's orientation and block type.
pub open spec fn slice_quads_match(
    qs: Seq<Quad>,
    d: int,
    s: int,
    n: int,
    mask: Seq<bool>,
    flip: Seq<bool>,
    bt: Seq<u32>,
) -> bool {
    forall|m: int, i: int, j: int|
        0 <= m < qs.len() && #[trigger] quad_covers(qs[m], d, s, i, j) ==> {
            &&& 0 <= i < n
            &&& 0 <= j < n
            &&& mask[ix(n, i, j)]
            &&& flip[ix(n, i, j)] == qs[m].flip
            &&& bt[ix(n, i, j)] == qs[m].block_type
        }
}

pub open spec fn disjoint_quads(qs: Seq<Quad>) -> bool {
    forall|m1: int, m2: int, d: int, s: int, i: int, j: int|
        0 <= m1 < qs.len() && 0 <= m2 < qs.len() && m1 != m2 && #[trigger] quad_covers(
            qs[m1],
            d,
            s,
            i,
            j,
        ) ==> !#[trigger] quad_covers(qs[m2], d, s, i, j)
}

/// Width of the run that starts at set mask cell `k`, in-plane column `i`:
/// it grows along `u` while the next cell is set and has the same
/// orientation and block type.
pub open spec fn run_width(mask: Seq<bool>, flip: Seq<bool>, bt: Seq<u32>, n: int, k: int, i: int, w: int) -> int
    decreases n - i - w,
{
    if w >= 1 && i + w < n && mask[k + w] && flip[k + w] == flip[k] && bt[k + w] == bt[k] {
        run_width(mask, flip, bt, n, k, i, w + 1)
    } else {
        w
    }
}

/// Row `j + h` holds `w` set cells from column `i` with the orientation and
/// block type of cell `k`.
pub open spec fn row_full(mask: Seq<bool>, flip: Seq<bool>, bt: Seq<u32>, n: int, k: int, i: int, j: int, w: int, h: int) -> bool {
    forall|t: int|
        0 <= t < w ==> #[trigger] mask[ix(n, i + t, j + h)] && flip[ix(n, i + t, j + h)] == flip[k]
            && bt[ix(n, i + t, j + h)] == bt[k]
}

/// Height of the quad of width `w` from cell `k`: it grows along `v` while
/// the next row is full.
pub open spec fn run_height(
    mask: Seq<bool>,
    flip: Seq<bool>,
    bt: Seq<u32>,
    n: int,
    k: int,
    i: int,
    j: int,
    w: int,
    h: int,
) -> int
    decreases n - j - h,
{
    if h >= 1 && j + h < n && row_full(mask, flip, bt, n, k, i, j, w, h) {
        run_height(mask, flip, bt, n, k, i, j, w, h + 1)
    } else {
        h
    }
}

/// The mask with the `w` by `h` rectangle from cell `(i, j)` cleared.
pub open spec fn cleared(mask: Seq<bool>, n: int, i: int, j: int, w: int, h: int) -> Seq<bool> {
    Seq::new(
        mask.len(),
        |p: int| mask[p] && !(i <= p % n < i + w && j <= p / n < j + h),
    )
}

/// The quads that greedy merging makes of a slice mask from cell `k` on, in
/// scan order: at each set cell the widest run, then the tallest block of
/// full rows under it, which is then cleared.
pub open spec fn sweep_from(mask: Seq<bool>, flip: Seq<bool>, bt: Seq<u32>, n: int, d: int, s: int, k: int) -> Seq<Quad>
    decreases n * n - k,
{
    if k < 0 || k >= n * n || n <= 0 {
        Seq::empty()
    } else if !mask[k] {
        sweep_from(mask, flip, bt, n, d, s, k + 1)
    } else {
        let i = k % n;
        let j = k / n;
        let w = run_width(mask, flip, bt, n, k, i, 1);
        let h = run_height(mask, flip, bt, n, k, i, j, w, 1);
        if 1 <= w <= n * n - k {
            seq![
                Quad {
                    axis: d as usize,
                    slice: s as usize,
                    u: i as usize,
                    v: j as usize,
                    width: w as usize,
                    height: h as usize,
                    flip: flip[k],
                    block_type: bt[k],
                },
            ] + sweep_from(cleared(mask, n, i, j, w, h), flip, bt, n, d, s, k + w)
        } else {
            Seq::empty()
        }
    }
}

/// Greedy merge of one slice: grows each unvisited set mask cell into the
/// widest run of equal (orientation, type) cells along `u`, then into the
/// tallest run of such full rows along `v`, and clears what it took.
fn sweep_slice(
    d: usize,
    s: usize,
    n: usize,
    mask: &mut Vec<bool>,
    flip: &Vec<bool>,
    bt: &Vec<u32>,
) -> (r: Vec<Quad>)
    requires
        1 <= n <= MAX_GRID_SIZE,
        old(mask)@.len() == n * n,
        flip@.len() == n * n,
        bt@.len() == n * n,
    ensures
        r@ == sweep_from(old(mask)@, flip@, bt@, n as int, d as int, s as int, 0),
        r@.len() <= n * n,
        slice_quads_ok(r@, d as int, s as int, n as int),
        slice_quads_match(r@, d as int, s as int, n as int, old(mask)@, flip@, bt@),
        disjoint_quads(r@),
        forall|i: int, j: int|
            0 <= i < n && 0 <= j < n && old(mask)@[ix(n as int, i, j)] ==> covered_by(
                r@,
                d as int,
                s as int,
                i,
                j,
            ),
{
    let ghost mask0 = mask@;
    let ghost ni = n as int;
    assert(n * n <= 65536) by (nonlinear_arith)
        requires
            n <= 256,
    ;
    let nn = n * n;
    let mut qs: Vec<Quad> = Vec::new();
    let mut k: usize = 0;
    while k < nn
        invariant
            1 <= n <= MAX_GRID_SIZE,
            nn == n * n,
            nn <= 65536,
            ni == n,
            mask@.len() == nn,
            flip@.len() == nn,
            bt@.len() == nn,
            mask0.len() == nn,
            k <= nn,
            qs@.len() <= k,
            slice_quads_ok(qs@, d as int, s as int, ni),
            slice_quads_match(qs@, d as int, s as int, ni, mask0, flip@, bt@),
            disjoint_quads(qs@),
            qs@ + sweep_from(mask@, flip@, bt@, ni, d as int, s as int, k as int) == sweep_from(
                mask0,
                flip@,
                bt@,
                ni,
                d as int,
                s as int,
                0,
            ),
            forall|i: int, j: int|
                0 <= i < n && 0 <= j < n ==> #[trigger] mask@[ix(ni, i, j)] == (mask0[ix(ni, i, j)]
                    && !covered_by(qs@, d as int, s as int, i, j)),
            forall|i: int, j: int|
                0 <= i < n && 0 <= j < n && ix(ni, i, j) < k ==> !#[trigger] mask@[ix(ni, i, j)],
        decreases nn - k,
    {
        let i = k % n;
        let j = k / n;
        proof {
            lemma_ix_of(ni, k as int);
        }
        if mask[k] {
            let f = flip[k];
            let b = bt[k];
            let mut w: usize = 1;
            assert(k + (n - i) <= nn) by (nonlinear_arith)
                requires
                    k == j * n + i,
                    j < n,
                    i < n,
                    nn == n * n,
            ;
            while i + w < n && mask[k + w] && flip[k + w] == f && bt[k + w] == b
                invariant
                    1 <= n <= MAX_GRID_SIZE,
                    nn == n * n,
                    ni == n,
                    mask@.len() == nn,
                    flip@.len() == nn,
                    bt@.len() == nn,
                    i < n,
                    j < n,
                    k == ix(ni, i as int, j as int),
                    k + (n - i) <= nn,
                    1 <= w,
                    i + w <= n,
                    f == flip@[k as int],
                    b == bt@[k as int],
                    run_width(mask@, flip@, bt@, ni, k as int, i as int, 1) == run_width(
                        mask@,
                        flip@,
                        bt@,
                        ni,
                        k as int,
                        i as int,
                        w as int,
                    ),
                    forall|t: int|
                        0 <= t < w ==> #[trigger] mask@[ix(ni, i + t, j as int)] && flip@[ix(
                            ni,
                            i + t,
                            j as int,
                        )] == f && bt@[ix(ni, i + t, j as int)] == b,
                decreases n - i - w,
            {
                proof {
                    lemma_ix(ni, (i + w) as int, j as int);
                    assert forall|t: int| 0 <= t < w + 1 implies #[trigger] mask@[ix(ni, i + t, j as int)]
                        && flip@[ix(ni, i + t, j as int)] == f && bt@[ix(ni, i + t, j as int)] == b by {
                        if t == w {
                            assert(ix(ni, i + t, j as int) == k + w);
                        }
                    }
                }
                w += 1;
            }
            let ghost wr = run_width(mask@, flip@, bt@, ni, k as int, i as int, 1);
            assert(wr == w);
            let mut h: usize = 1;
            let mut growing = true;
            proof {
                assert forall|l: int, t: int|
                    0 <= l < h && 0 <= t < w implies #[trigger] mask@[ix(ni, i + t, j + l)]
                        && flip@[ix(ni, i + t, j + l)] == f && bt@[ix(ni, i + t, j + l)] == b by {
                    assert(l == 0);
                    assert(mask@[ix(ni, i + t, j as int)]);
                }
            }
            while growing && j + h < n
                invariant
                    1 <= n <= MAX_GRID_SIZE,
                    nn == n * n,
                    ni == n,
                    mask@.len() == nn,
                    flip@.len() == nn,
                    bt@.len() == nn,
                    i < n,
                    j < n,
                    k == ix(ni, i as int, j as int),
                    1 <= w,
                    i + w <= n,
                    1 <= h,
                    j + h <= n,
                    f == flip@[k as int],
                    b == bt@[k as int],
                    run_height(mask@, flip@, bt@, ni, k as int, i as int, j as int, w as int, 1)
                        == run_height(mask@, flip@, bt@, ni, k as int, i as int, j as int, w as int, h as int),
                    !growing ==> !row_full(mask@, flip@, bt@, ni, k as int, i as int, j as int, w as int, h as int),
                    forall|l: int, t: int|
                        0 <= l < h && 0 <= t < w ==> #[trigger] mask@[ix(ni, i + t, j + l)]
                            && flip@[ix(ni, i + t, j + l)] == f && bt@[ix(ni, i + t, j + l)] == b,
                decreases n - j - h + (if growing {
                    1int
                } else {
                    0int
                }),
            {
                assert(h * n <= 65536) by (nonlinear_arith)
                    requires
                        h <= n,
                        n <= 256,
                ;
                proof {
                    lemma_ix_shift(ni, i as int, j as int, 0, h as int);
                    lemma_ix(ni, i as int, (j + h) as int);
                }
                let row = k + h * n;
                let mut t: usize = 0;
                let mut ok = true;
                while ok && t < w
                    invariant
                        1 <= n <= MAX_GRID_SIZE,
                        nn == n * n,
                        ni == n,
                        mask@.len() == nn,
                        flip@.len() == nn,
                        bt@.len() == nn,
                        i < n,
                        j + h < n,
                        i + w <= n,
                        t <= w,
                        f == flip@[k as int],
                        b == bt@[k as int],
                        row == ix(ni, i as int, (j + h) as int),
                        !ok ==> t < w && !(mask@[ix(ni, i + t, j + h)] && flip@[ix(ni, i + t, j + h)] == f
                            && bt@[ix(ni, i + t, j + h)] == b),
                        ok ==> forall|t2: int|
                            0 <= t2 < t ==> #[trigger] mask@[ix(ni, i + t2, j + h)] && flip@[ix(
                                ni,
                                i + t2,
                                j + h,
                            )] == f && bt@[ix(ni, i + t2, j + h)] == b,
                    decreases w - t + (if ok {
                        1int
                    } else {
                        0int
                    }),
                {
                    proof {
                        lemma_ix(ni, (i + t) as int, (j + h) as int);
                    }
                    if !mask[row + t] || flip[row + t] != f || bt[row + t] != b {
                        proof {
                            assert(row + t == ix(ni, i + t, j + h));
                        }
                        ok = false;
                    } else {
                        proof {
                            assert(row + t == ix(ni, i + t, j + h));
                            assert forall|t2: int|
                                0 <= t2 < t + 1 implies #[trigger] mask@[ix(ni, i + t2, j + h)]
                                    && flip@[ix(ni, i + t2, j + h)] == f && bt@[ix(ni, i + t2, j + h)]
                                    == b by {
                                if t2 < t {
                                    assert(mask@[ix(ni, i + t2, j + h)]);
                                }
                            }
                        }
                        t += 1;
                    }
                }
                if ok {
                    proof {
                        assert(t == w);
                        assert forall|t2: int| 0 <= t2 < w implies #[trigger] mask@[ix(ni, i + t2, j + h)]
                            && flip@[ix(ni, i + t2, j + h)] == flip@[k as int] && bt@[ix(ni, i + t2, j + h)]
                            == bt@[k as int] by {
                            assert(mask@[ix(ni, i + t2, j + h)]);
                        }
                        assert(row_full(mask@, flip@, bt@, ni, k as int, i as int, j as int, w as int, h as int));
                        assert forall|l: int, t2: int|
                            0 <= l < h + 1 && 0 <= t2 < w implies #[trigger] mask@[ix(ni, i + t2, j + l)]
                                && flip@[ix(ni, i + t2, j + l)] == f && bt@[ix(ni, i + t2, j + l)]
                                == b by {
                            if l == h {
                                assert(mask@[ix(ni, i + t2, j + h)]);
                            }
                        }
                    }
                    h += 1;
                } else {
                    proof {
                        let bad = t as int;
                        assert(!(mask@[ix(ni, i + bad, j + h)] && flip@[ix(ni, i + bad, j + h)] == flip@[k as int]
                            && bt@[ix(ni, i + bad, j + h)] == bt@[k as int]));
                    }
                    growing = false;
                }
            }
            let ghost hr = run_height(mask@, flip@, bt@, ni, k as int, i as int, j as int, w as int, 1);
            assert(hr == h);
            let q = Quad {
                axis: d,
                slice: s,
                u: i,
                v: j,
                width: w,
                height: h,
                flip: f,
                block_type: b,
            };
            let ghost old_qs = qs@;
            let ghost mb = mask@;
            assert(sweep_from(mb, flip@, bt@, ni, d as int, s as int, k as int) == seq![q] + sweep_from(
                cleared(mb, ni, i as int, j as int, w as int, h as int),
                flip@,
                bt@,
                ni,
                d as int,
                s as int,
                k + w,
            ));
            qs.push(q);
            proof {
                assert forall|i2: int, j2: int|
                    #![trigger covered_by(qs@, d as int, s as int, i2, j2)]
                    covered_by(qs@, d as int, s as int, i2, j2) == (covered_by(
                        old_qs,
                        d as int,
                        s as int,
                        i2,
                        j2,
                    ) || quad_covers(q, d as int, s as int, i2, j2)) by {
                    if covered_by(old_qs, d as int, s as int, i2, j2) {
                        let m = choose|m: int|
                            0 <= m < old_qs.len() && #[trigger] quad_covers(
                                old_qs[m],
                                d as int,
                                s as int,
                                i2,
                                j2,
                            );
                        assert(qs@[m] == old_qs[m]);
                    }
                    if quad_covers(q, d as int, s as int, i2, j2) {
                        assert(qs@[old_qs.len() as int] == q);
                    }
                    if covered_by(qs@, d as int, s as int, i2, j2) {
                        let m = choose|m: int|
                            0 <= m < qs@.len() && #[trigger] quad_covers(
                                qs@[m],
                                d as int,
                                s as int,
                                i2,
                                j2,
                            );
                        if m < old_qs.len() {
                            assert(old_qs[m] == qs@[m]);
                        }
                    }
                }
                assert forall|m: int, i2: int, j2: int|
                    0 <= m < qs@.len() && #[trigger] quad_covers(
                        qs@[m],
                        d as int,
                        s as int,
                        i2,
                        j2,
                    ) implies {
                    &&& 0 <= i2 < n
                    &&& 0 <= j2 < n
                    &&& mask0[ix(ni, i2, j2)]
                    &&& flip@[ix(ni, i2, j2)] == qs@[m].flip
                    &&& bt@[ix(ni, i2, j2)] == qs@[m].block_type
                } by {
                    if m < old_qs.len() {
                        assert(old_qs[m] == qs@[m]);
                    } else {
                        let l = j2 - j;
                        let t = i2 - i;
                        assert(mask@[ix(ni, i + t, j + l)]);
                    }
                }
                assert forall|m1: int, m2: int, d2: int, s2: int, i2: int, j2: int|
                    0 <= m1 < qs@.len() && 0 <= m2 < qs@.len() && m1 != m2 && #[trigger] quad_covers(
                        qs@[m1],
                        d2,
                        s2,
                        i2,
                        j2,
                    ) implies !#[trigger] quad_covers(qs@[m2], d2, s2, i2, j2) by {
                    if m1 < old_qs.len() && m2 < old_qs.len() {
                        assert(old_qs[m1] == qs@[m1]);
                        assert(old_qs[m2] == qs@[m2]);
                    } else if m1 < old_qs.len() {
                        assert(old_qs[m1] == qs@[m1]);
                        if quad_covers(qs@[m2], d2, s2, i2, j2) {
                            assert(mb[ix(ni, i + (i2 - i), j + (j2 - j))]);
                            assert(covered_by(old_qs, d as int, s as int, i2, j2));
                        }
                    } else {
                        assert(old_qs[m2] == qs@[m2]);
                        if quad_covers(qs@[m2], d2, s2, i2, j2) {
                            assert(mb[ix(ni, i + (i2 - i), j + (j2 - j))]);
                            assert(covered_by(old_qs, d as int, s as int, i2, j2));
                        }
                    }
                }
            }
            let mut l: usize = 0;
            while l < h
                invariant
                    1 <= n <= MAX_GRID_SIZE,
                    nn == n * n,
                    ni == n,
                    mask@.len() == nn,
                    mb.len() == nn,
                    i < n,
                    j < n,
                    k == ix(ni, i as int, j as int),
                    i + w <= n,
                    j + h <= n,
                    l <= h,
                    forall|i2: int, j2: int|
                        0 <= i2 < n && 0 <= j2 < n ==> #[trigger] mask@[ix(ni, i2, j2)] == (mb[ix(
                            ni,
                            i2,
                            j2,
                        )] && !(i <= i2 < i + w && j <= j2 < j + l)),
                decreases h - l,
            {
                let mut t: usize = 0;
                while t < w
                    invariant
                        1 <= n <= MAX_GRID_SIZE,
                        nn == n * n,
                        ni == n,
                        mask@.len() == nn,
                        mb.len() == nn,
                        i < n,
                        j < n,
                        k == ix(ni, i as int, j as int),
                        i + w <= n,
                        j + l < n,
                        t <= w,
                        forall|i2: int, j2: int|
                            0 <= i2 < n && 0 <= j2 < n ==> #[trigger] mask@[ix(ni, i2, j2)] == (mb[ix(
                                ni,
                                i2,
                                j2,
                            )] && !((i <= i2 < i + w && j <= j2 < j + l) || (j2 == j + l && i <= i2
                                < i + t))),
                    decreases w - t,
                {
                    assert(l * n <= 65536) by (nonlinear_arith)
                        requires
                            l < n,
                            n <= 256,
                    ;
                    proof {
                        lemma_ix_shift(ni, i as int, j as int, t as int, l as int);
                        lemma_ix(ni, (i + t) as int, (j + l) as int);
                    }
                    let p = k + t + l * n;
                    let ghost pre = mask@;
                    mask.set(p, false);
                    proof {
                        assert forall|i2: int, j2: int|
                            0 <= i2 < n && 0 <= j2 < n implies #[trigger] mask@[ix(ni, i2, j2)] == (
                            mb[ix(ni, i2, j2)] && !((i <= i2 < i + w && j <= j2 < j + l) || (j2 == j
                                + l && i <= i2 < i + t + 1))) by {
                            if ix(ni, i2, j2) == p {
                                lemma_ix_inj(ni, i2, j2, (i + t) as int, (j + l) as int);
                            } else {
                                lemma_ix(ni, i2, j2);
                                assert(mask@[ix(ni, i2, j2)] == pre[ix(ni, i2, j2)]);
                            }
                        }
                    }
                    t += 1;
                }
                l += 1;
            }
            proof {
                assert forall|p: int| 0 <= p < nn implies #[trigger] mask@[p] == cleared(
                    mb,
                    ni,
                    i as int,
                    j as int,
                    w as int,
                    h as int,
                )[p] by {
                    lemma_ix_of(ni, p);
                }
                assert(mask@ =~= cleared(mb, ni, i as int, j as int, w as int, h as int));
                assert(qs@ + sweep_from(mask@, flip@, bt@, ni, d as int, s as int, k + w) =~= old_qs + sweep_from(
                    mb,
                    flip@,
                    bt@,
                    ni,
                    d as int,
                    s as int,
                    k as int,
                ));
                assert forall|i2: int, j2: int|
                    0 <= i2 < n && 0 <= j2 < n && ix(ni, i2, j2) < k + w implies !#[trigger] mask@[ix(
                        ni,
                        i2,
                        j2,
                    )] by {
                    if ix(ni, i2, j2) >= k {
                        lemma_ix_row(ni, i as int, j as int, w as int, i2, j2);
                    }
                }
            }
            k = k + w;
        } else {
            assert(sweep_from(mask@, flip@, bt@, ni, d as int, s as int, k as int) == sweep_from(
                mask@,
                flip@,
                bt@,
                ni,
                d as int,
                s as int,
                k + 1,
            ));
            k = k + 1;
        }
    }
    assert(qs@ =~= qs@ + sweep_from(mask@, flip@, bt@, ni, d as int, s as int, k as int));
    proof {
        assert forall|i: int, j: int|
            0 <= i < n && 0 <= j < n && mask0[ix(ni, i, j)] implies covered_by(
            qs@,
            d as int,
            s as int,
            i,
            j,
        ) by {
            lemma_ix(ni, i, j);
            assert(!mask@[ix(ni, i, j)]);
        }
    }
    qs
}

/// The face at plane `s` across axis `d`, cell `(i, j)`, separates voxel
/// `(x, y, z)` from a neighbour.
pub open spec fn face_touches(d: int, s: int, i: int, j: int, x: int, y: int, z: int) -> bool {
    axis_point(d, s - 1, i, j) == (x, y, z) || axis_point(d, s, i, j) == (x, y, z)
}

/// A voxel has six faces: across each axis, the two planes that bound it, at
/// its own in-plane position.
pub proof fn lemma_voxel_faces(d: int, s: int, i: int, j: int, x: int, y: int, z: int)
    requires
        0 <= d < 3,
        face_touches(d, s, i, j, x, y, z),
    ensures
        d == 0 ==> (i, j) == (y, z) && (s == x || s == x + 1),
        d == 1 ==> (i, j) == (z, x) && (s == y || s == y + 1),
        d == 2 ==> (i, j) == (x, y) && (s == z || s == z + 1),
{
}

/// Changing one voxel of a grid leaves every face that does not touch that
/// voxel as it was: exposed or not, with the same orientation and block type.
/// So an edit changes at most the six faces of the voxel it changes.
pub proof fn lemma_edit_is_local(
    g1: BlockGrid,
    g2: BlockGrid,
    x: int,
    y: int,
    z: int,
    d: int,
    s: int,
    i: int,
    j: int,
)
    requires
        g1.side() == g2.side(),
        forall|a: int, b: int, c: int|
            (a, b, c) != (x, y, z) ==> #[trigger] g2.at(a, b, c) == g1.at(a, b, c),
        !face_touches(d, s, i, j, x, y, z),
    ensures
        exposed(g2, d, s, i, j) == exposed(g1, d, s, i, j),
        face_flip(g2, d, s, i, j) == face_flip(g1, d, s, i, j),
        face_type(g2, d, s, i, j) == face_type(g1, d, s, i, j),
{
    let p = axis_point(d, s - 1, i, j);
    let q = axis_point(d, s, i, j);
    assert(g2.at(p.0, p.1, p.2) == g1.at(p.0, p.1, p.2));
    assert(g2.at(q.0, q.1, q.2) == g1.at(q.0, q.1, q.2));
}

/// The exposed faces of plane `s` across axis `d`, indexed by `ix`.
pub open spec fn slice_mask(g: BlockGrid, d: int, s: int) -> Seq<bool> {
    let n = g.side() as int;
    Seq::new((n * n) as nat, |p: int| exposed(g, d, s, p % n, p / n))
}

pub open spec fn slice_flip(g: BlockGrid, d: int, s: int) -> Seq<bool> {
    let n = g.side() as int;
    Seq::new((n * n) as nat, |p: int| face_flip(g, d, s, p % n, p / n))
}

pub open spec fn slice_type(g: BlockGrid, d: int, s: int) -> Seq<u32> {
    let n = g.side() as int;
    Seq::new((n * n) as nat, |p: int| face_type(g, d, s, p % n, p / n))
}

/// The greedy quads of plane `s` across axis `d`.
pub open spec fn slice_quads(g: BlockGrid, d: int, s: int) -> Seq<Quad> {
    sweep_from(slice_mask(g, d, s), slice_flip(g, d, s), slice_type(g, d, s), g.side() as int, d, s, 0)
}

/// The greedy quads of the first `m` planes, axis by axis, each axis from
/// plane 0 to plane `side`.
pub open spec fn greedy_upto(g: BlockGrid, m: nat) -> Seq<Quad>
    decreases m,
{
    if m == 0 {
        Seq::empty()
    } else {
        let per_axis = g.side() + 1int;
        greedy_upto(g, (m - 1) as nat) + slice_quads(g, (m - 1) / per_axis, (m - 1) % per_axis)
    }
}

/// The greedy mesh of a grid: all planes of all three axes.
pub open spec fn greedy_mesh(g: BlockGrid) -> Seq<Quad> {
    greedy_upto(g, (3 * (g.side() + 1)) as nat)
}

fn voxel_on_axis(g: &BlockGrid, d: usize, t: usize, i: usize, j: usize) -> (r: Option<Block>)
    requires
        g.wf(),
        d < 3,
    ensures
        r is Some <==> solid_on_axis(*g, d as int, t as int, i as int, j as int),
        r is Some ==> r->0.type_id == type_on_axis(*g, d as int, t as int, i as int, j as int),
{
    if d == 0 {
        g.get(t, i, j)
    } else if d == 1 {
        g.get(j, t, i)
    } else {
        g.get(i, j, t)
    }
}

/// The face mask of plane `s` across axis `d`, with each face's orientation
/// and block type, indexed by `ix`.
fn slice_masks(g: &BlockGrid, d: usize, s: usize) -> (r: (Vec<bool>, Vec<bool>, Vec<u32>))
    requires
        g.wf(),
        d < 3,
        s <= g.side(),
    ensures
        r.0@ == slice_mask(*g, d as int, s as int),
        r.1@ == slice_flip(*g, d as int, s as int),
        r.2@ == slice_type(*g, d as int, s as int),
        r.0@.len() == g.side() * g.side(),
        r.1@.len() == g.side() * g.side(),
        r.2@.len() == g.side() * g.side(),
        forall|i: int, j: int|
            0 <= i < g.side() && 0 <= j < g.side() ==> {
                &&& r.0@[#[trigger] ix(g.side() as int, i, j)] == exposed(
                    *g,
                    d as int,
                    s as int,
                    i,
                    j,
                )
                &&& r.1@[ix(g.side() as int, i, j)] == face_flip(*g, d as int, s as int, i, j)
                &&& r.2@[ix(g.side() as int, i, j)] == face_type(*g, d as int, s as int, i, j)
            },
{
    let n = g.size();
    let ghost ni = n as int;
    assert(n * n <= 65536) by (nonlinear_arith)
        requires
            n <= 256,
    ;
    let nn = n * n;
    let mut mask: Vec<bool> = Vec::new();
    let mut flip: Vec<bool> = Vec::new();
    let mut bt: Vec<u32> = Vec::new();
    let mut k: usize = 0;
    while k < nn
        invariant
            g.wf(),
            d < 3,
            s <= n,
            n == g.side(),
            ni == n,
            1 <= n,
            nn == n * n,
            k <= nn,
            mask@.len() == k,
            flip@.len() == k,
            bt@.len() == k,
            forall|kk: int|
                0 <= kk < k ==> {
                    &&& #[trigger] mask@[kk] == exposed(*g, d as int, s as int, kk % ni, kk / ni)
                    &&& flip@[kk] == face_flip(*g, d as int, s as int, kk % ni, kk / ni)
                    &&& bt@[kk] == face_type(*g, d as int, s as int, kk % ni, kk / ni)
                },
        decreases nn - k,
    {
        let i = k % n;
        let j = k / n;
        proof {
            lemma_ix_of(ni, k as int);
        }
        let current = if s > 0 {
            voxel_on_axis(g, d, s - 1, i, j)
        } else {
            None
        };
        let compare = if s < n {
            voxel_on_axis(g, d, s, i, j)
        } else {
            None
        };
        let cur_solid = current.is_some();
        let cmp_solid = compare.is_some();
        let face_type_id = match current {
            Some(b) => b.type_id,
            None => match compare {
                Some(b) => b.type_id,
                None => 0,
            },
        };
        proof {
            assert(cur_solid == solid_on_axis(*g, d as int, s - 1, i as int, j as int));
            assert(cmp_solid == solid_on_axis(*g, d as int, s as int, i as int, j as int));
            assert(face_type_id == face_type(*g, d as int, s as int, i as int, j as int));
        }
        let ghost pre_mask = mask@;
        let ghost pre_flip = flip@;
        let ghost pre_bt = bt@;
        mask.push(cur_solid != cmp_solid);
        flip.push(!cmp_solid);
        bt.push(face_type_id);
        k += 1;
        proof {
            assert forall|kk: int| 0 <= kk < k implies {
                &&& #[trigger] mask@[kk] == exposed(*g, d as int, s as int, kk % ni, kk / ni)
                &&& flip@[kk] == face_flip(*g, d as int, s as int, kk % ni, kk / ni)
                &&& bt@[kk] == face_type(*g, d as int, s as int, kk % ni, kk / ni)
            } by {
                if kk < k - 1 {
                    assert(mask@[kk] == pre_mask[kk]);
                    assert(flip@[kk] == pre_flip[kk]);
                    assert(bt@[kk] == pre_bt[kk]);
                } else {
                    assert(kk == k - 1);
                    assert(kk % ni == i as int);
                    assert(kk / ni == j as int);
                    assert(mask@[kk] == (cur_solid != cmp_solid));
                    assert(face_in_range(*g, d as int, s as int, i as int, j as int));
                }
            }
        }
    }
    proof {
        assert forall|i: int, j: int| 0 <= i < n && 0 <= j < n implies {
            &&& mask@[#[trigger] ix(ni, i, j)] == exposed(*g, d as int, s as int, i, j)
            &&& flip@[ix(ni, i, j)] == face_flip(*g, d as int, s as int, i, j)
            &&& bt@[ix(ni, i, j)] == face_type(*g, d as int, s as int, i, j)
        } by {
            lemma_ix(ni, i, j);
            assert(mask@[ix(ni, i, j)] == exposed(*g, d as int, s as int, ix(ni, i, j) % ni, ix(ni, i, j) / ni));
        }
        assert(mask@ =~= slice_mask(*g, d as int, s as int));
        assert forall|p: int| 0 <= p < nn implies #[trigger] flip@[p] == face_flip(*g, d as int, s as int, p % ni, p / ni)
            && bt@[p] == face_type(*g, d as int, s as int, p % ni, p / ni) by {
            assert(mask@[p] == exposed(*g, d as int, s as int, p % ni, p / ni));
        }
        assert(flip@ =~= slice_flip(*g, d as int, s as int));
        assert forall|p: int| 0 <= p < nn implies #[trigger] bt@[p] == face_type(*g, d as int, s as int, p % ni, p / ni) by {
            assert(flip@[p] == face_flip(*g, d as int, s as int, p % ni, p / ni));
        }
        assert(bt@ =~= slice_type(*g, d as int, s as int));
    }
    (mask, flip, bt)
}

/// Every quad lies inside the grid and spans at least one face.
pub open spec fn quads_in_grid(qs: Seq<Quad>, n: int) -> bool {
    forall|m: int|
        0 <= m < qs.len() ==> {
            &&& (#[trigger] qs[m]).axis < 3
            &&& qs[m].slice <= n
            &&& qs[m].width >= 1
            &&& qs[m].height >= 1
            &&& qs[m].u + qs[m].width <= n
            &&& qs[m].v + qs[m].height <= n
        }
}

/// Greedy meshing of a block grid: sweeps the three axes and, in every plane
/// between voxel layers, merges the exposed faces of equal orientation and
/// block type into rectangles. The rectangles cover every exposed face exactly
/// once and nothing else.
pub fn greedy_quads(g: &BlockGrid) -> (r: Vec<Quad>)
    requires
        g.wf(),
    ensures
        r@ == greedy_mesh(*g),
        exact_cover(*g, r@),
        quads_in_grid(r@, g.side() as int),
        r@.len() <= 3 * (g.side() + 1) * (g.side() * g.side()),
{
    let n = g.size();
    let ghost ni = n as int;
    let ghost nn = ni * ni;
    let mut out: Vec<Quad> = Vec::new();
    let mut d: usize = 0;
    while d < 3
        invariant
            g.wf(),
            n == g.side(),
            1 <= n <= MAX_GRID_SIZE,
            ni == n,
            nn == ni * ni,
            d <= 3,
            out@ == greedy_upto(*g, (d * (ni + 1)) as nat),
            out@.len() <= d * (ni + 1) * nn,
            quads_in_grid(out@, ni),
            disjoint_quads(out@),
            forall|m: int, d2: int, s2: int, i: int, j: int|
                0 <= m < out@.len() && #[trigger] quad_covers(out@[m], d2, s2, i, j) ==> {
                    &&& exposed(*g, d2, s2, i, j)
                    &&& out@[m].flip == face_flip(*g, d2, s2, i, j)
                    &&& out@[m].block_type == face_type(*g, d2, s2, i, j)
                },
            forall|d2: int, s2: int, i: int, j: int|
                #![trigger exposed(*g, d2, s2, i, j)]
                exposed(*g, d2, s2, i, j) && d2 < d ==> covered_by(out@, d2, s2, i, j),
            forall|m: int| 0 <= m < out@.len() ==> (#[trigger] out@[m]).axis < d,
        decreases 3 - d,
    {
        let mut s: usize = 0;
        while s <= n
            invariant
                g.wf(),
                n == g.side(),
                1 <= n <= MAX_GRID_SIZE,
                ni == n,
                nn == ni * ni,
                d < 3,
                s <= n + 1,
                out@ == greedy_upto(*g, (d * (ni + 1) + s) as nat),
                out@.len() <= (d * (ni + 1) + s) * nn,
                quads_in_grid(out@, ni),
                disjoint_quads(out@),
                forall|m: int, d2: int, s2: int, i: int, j: int|
                    0 <= m < out@.len() && #[trigger] quad_covers(out@[m], d2, s2, i, j) ==> {
                        &&& exposed(*g, d2, s2, i, j)
                        &&& out@[m].flip == face_flip(*g, d2, s2, i, j)
                        &&& out@[m].block_type == face_type(*g, d2, s2, i, j)
                    },
                forall|d2: int, s2: int, i: int, j: int|
                    #![trigger exposed(*g, d2, s2, i, j)]
                    exposed(*g, d2, s2, i, j) && (d2 < d || (d2 == d && s2 < s)) ==> covered_by(
                        out@,
                        d2,
                        s2,
                        i,
                        j,
                    ),
                forall|m: int|
                    0 <= m < out@.len() ==> (#[trigger] out@[m]).axis < d || (out@[m].axis == d
                        && out@[m].slice < s),
            decreases n + 1 - s,
        {
            let (mut mask, flip, bt) = slice_masks(g, d, s);
            let ghost mask0 = mask@;
            let mut qs = sweep_slice(d, s, n, &mut mask, &flip, &bt);
            let ghost old_out = out@;
            let ghost new_qs = qs@;
            out.append(&mut qs);
            proof {
                assert(out@ == old_out + new_qs);
                assert forall|m: int| 0 <= m < out@.len() implies {
                    &&& (#[trigger] out@[m]).axis < 3
                    &&& out@[m].slice <= ni
                    &&& out@[m].width >= 1
                    &&& out@[m].height >= 1
                    &&& out@[m].u + out@[m].width <= ni
                    &&& out@[m].v + out@[m].height <= ni
                } by {
                    if m < old_out.len() {
                        assert(out@[m] == old_out[m]);
                    } else {
                        assert(out@[m] == new_qs[m - old_out.len()]);
                    }
                }
                assert forall|m: int, d2: int, s2: int, i: int, j: int|
                    0 <= m < out@.len() && #[trigger] quad_covers(out@[m], d2, s2, i, j) implies {
                    &&& exposed(*g, d2, s2, i, j)
                    &&& out@[m].flip == face_flip(*g, d2, s2, i, j)
                    &&& out@[m].block_type == face_type(*g, d2, s2, i, j)
                } by {
                    if m < old_out.len() {
                        assert(out@[m] == old_out[m]);
                    } else {
                        let m2 = m - old_out.len();
                        assert(out@[m] == new_qs[m2]);
                        assert(quad_covers(new_qs[m2], d as int, s as int, i, j));
                        assert(mask0[ix(ni, i, j)]);
                    }
                }
                assert forall|m1: int, m2: int, d2: int, s2: int, i: int, j: int|
                    0 <= m1 < out@.len() && 0 <= m2 < out@.len() && m1 != m2
                        && #[trigger] quad_covers(out@[m1], d2, s2, i, j) implies !#[trigger] quad_covers(
                    out@[m2],
                    d2,
                    s2,
                    i,
                    j,
                ) by {
                    let k = old_out.len() as int;
                    if m1 < k && m2 < k {
                        assert(out@[m1] == old_out[m1]);
                        assert(out@[m2] == old_out[m2]);
                    } else if m1 >= k && m2 >= k {
                        assert(out@[m1] == new_qs[m1 - k]);
                        assert(out@[m2] == new_qs[m2 - k]);
                    } else if m1 < k {
                        assert(out@[m1] == old_out[m1]);
                        assert(out@[m2] == new_qs[m2 - k]);
                    } else {
                        assert(out@[m1] == new_qs[m1 - k]);
                        assert(out@[m2] == old_out[m2]);
                    }
                }
                assert forall|d2: int, s2: int, i: int, j: int|
                    #![trigger exposed(*g, d2, s2, i, j)]
                    exposed(*g, d2, s2, i, j) && (d2 < d || (d2 == d && s2 < s + 1)) implies covered_by(
                        out@,
                        d2,
                        s2,
                        i,
                        j,
                    ) by {
                    if d2 < d || (d2 == d && s2 < s) {
                        let m = choose|m: int|
                            0 <= m < old_out.len() && #[trigger] quad_covers(old_out[m], d2, s2, i, j);
                        assert(out@[m] == old_out[m]);
                    } else {
                        lemma_ix(ni, i, j);
                        assert(mask0[ix(ni, i, j)]);
                        assert(covered_by(new_qs, d as int, s as int, i, j));
                        let m = choose|m: int|
                            0 <= m < new_qs.len() && #[trigger] quad_covers(new_qs[m], d2, s2, i, j);
                        assert(out@[m + old_out.len()] == new_qs[m]);
                    }
                }
                assert forall|m: int| 0 <= m < out@.len() implies (#[trigger] out@[m]).axis < d || (
                out@[m].axis == d && out@[m].slice < s + 1) by {
                    if m < old_out.len() {
                        assert(out@[m] == old_out[m]);
                    } else {
                        assert(out@[m] == new_qs[m - old_out.len()]);
                    }
                }
                assert((d * (ni + 1) + s) * nn + nn == (d * (ni + 1) + s + 1) * nn) by (nonlinear_arith);
                let m = d * (ni + 1) + s;
                lemma_fundamental_div_mod_converse_div(m, ni + 1, d as int, s as int);
                lemma_fundamental_div_mod_converse_mod(m, ni + 1, d as int, s as int);
                assert(greedy_upto(*g, (m + 1) as nat) == greedy_upto(*g, m as nat) + slice_quads(*g, d as int, s as int));
            }
            s += 1;
        }
        proof {
            assert((d * (ni + 1) + (ni + 1)) * nn == (d + 1) * (ni + 1) * nn) by (nonlinear_arith);
            assert(d * (ni + 1) + (ni + 1) == (d + 1) * (ni + 1)) by (nonlinear_arith);
        }
        d += 1;
    }
    out
}

} // verus!
