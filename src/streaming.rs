use vstd::prelude::*;

use crate::bounds::{bounds_of_chunk, chunk_in_world};

verus! {

/// Largest streaming radius, in chunks: the largest chunk coordinate whose
/// bounds fit the lattice.
pub const MAX_RADIUS: i32 = 16777214;

/// The `k`-th offset across a ring: `0, 1, -1, 2, -2, ...`.
pub open spec fn ring_offset(k: int) -> int {
    if k % 2 == 1 {
        (k + 1) / 2
    } else {
        -(k / 2)
    }
}

/// Number of chunks on ring `x` of a quadrant: offsets `0` to `x` and down to
/// `-(x - 1)` when `z_dir` is positive, down to `-x` otherwise.
pub open spec fn ring_len(x: int, z_dir: int) -> int {
    if z_dir > 0 {
        2 * x
    } else {
        2 * x + 1
    }
}

/// Chunk coordinates of offset `z` on ring `x`: the ring runs across z at
/// `x * x_dir` along x when `z_dir` is positive, and across x at
/// `x * x_dir` along z otherwise.
pub open spec fn ring_chunk(x: int, z: int, x_dir: int, z_dir: int) -> (i32, i32, i32) {
    if z_dir > 0 {
        ((x * x_dir) as i32, 0, z as i32)
    } else {
        ((z * z_dir) as i32, 0, (x * x_dir) as i32)
    }
}

pub open spec fn ring(x: int, x_dir: int, z_dir: int) -> Seq<(i32, i32, i32)> {
    Seq::new(ring_len(x, z_dir) as nat, |k: int| ring_chunk(x, ring_offset(k), x_dir, z_dir))
}

/// The chunks of rings `1` to `radius`, ring after ring.
pub open spec fn spiral(radius: int, x_dir: int, z_dir: int) -> Seq<(i32, i32, i32)>
    decreases radius,
{
    if radius <= 0 {
        Seq::empty()
    } else {
        spiral(radius - 1, x_dir, z_dir) + ring(radius, x_dir, z_dir)
    }
}

/// The ring that a chunk of the quadrant lies on.
pub open spec fn ring_of(p: (i32, i32, i32), x_dir: int, z_dir: int) -> int {
    if z_dir > 0 {
        p.0 * x_dir
    } else {
        p.2 * x_dir
    }
}

/// The offset across its ring of a chunk of the quadrant.
pub open spec fn offset_of(p: (i32, i32, i32), z_dir: int) -> int {
    if z_dir > 0 {
        p.2 as int
    } else {
        p.0 * z_dir
    }
}

pub open spec fn quadrant_dir(d: i32) -> bool {
    d == 1 || d == -1
}

/// The chunk coordinates that one streaming worker generates, in order: ring
/// after ring outwards from the origin up to `radius`, each ring starting on
/// the quadrant's axis and alternating to either side. No chunk comes twice.
pub fn chunkloader(radius: i32, x_dir: i32, z_dir: i32) -> (r: Vec<(i32, i32, i32)>)
    requires
        0 <= radius <= MAX_RADIUS,
        quadrant_dir(x_dir),
        quadrant_dir(z_dir),
    ensures
        r@ == spiral(radius as int, x_dir as int, z_dir as int),
        r@.no_duplicates(),
        r@.len() == if z_dir > 0 {
            radius * (radius + 1)
        } else {
            radius * (radius + 2)
        },
        forall|k: int|
            0 <= k < r@.len() ==> {
                &&& 1 <= ring_of(#[trigger] r@[k], x_dir as int, z_dir as int) <= radius
                &&& r@[k].1 == 0
            },
{
    let mut out: Vec<(i32, i32, i32)> = Vec::new();
    let mut x: i32 = 1;
    while x <= radius
        invariant
            0 <= radius <= MAX_RADIUS,
            quadrant_dir(x_dir),
            quadrant_dir(z_dir),
            1 <= x <= radius + 1,
            out@ == spiral((x - 1) as int, x_dir as int, z_dir as int),
            out@.no_duplicates(),
            out@.len() == if z_dir > 0 {
                (x - 1) * x
            } else {
                (x - 1) * (x + 1)
            },
            forall|k: int|
                0 <= k < out@.len() ==> {
                    &&& 1 <= ring_of(#[trigger] out@[k], x_dir as int, z_dir as int) < x
                    &&& out@[k].1 == 0
                },
        decreases radius + 1 - x,
    {
        let len: i32 = if z_dir > 0 {
            2 * x
        } else {
            2 * x + 1
        };
        let ghost before = out@;
        let mut k: i32 = 0;
        while k < len
            invariant
                0 <= radius <= MAX_RADIUS,
                quadrant_dir(x_dir),
                quadrant_dir(z_dir),
                1 <= x <= radius,
                len == ring_len(x as int, z_dir as int),
                0 <= k <= len,
                out@ == before + ring(x as int, x_dir as int, z_dir as int).take(k as int),
                before.no_duplicates(),
                forall|j: int|
                    0 <= j < before.len() ==> 1 <= ring_of(#[trigger] before[j], x_dir as int, z_dir as int)
                        < x,
                forall|j: int|
                    0 <= j < before.len() ==> (#[trigger] before[j]).1 == 0,
                out@.no_duplicates(),
            decreases len - k,
        {
            let z: i32 = if k % 2 == 1 {
                (k + 1) / 2
            } else {
                -(k / 2)
            };
            let along: i32 = if x_dir > 0 {
                x
            } else {
                -x
            };
            let across: i32 = if z_dir > 0 {
                z
            } else {
                -z
            };
            let p: (i32, i32, i32) = if z_dir > 0 {
                (along, 0, z)
            } else {
                (across, 0, along)
            };
            proof {
                assert(along == x * x_dir) by (nonlinear_arith)
                    requires
                        x_dir == 1 || x_dir == -1,
                        (x_dir == 1 ==> along == x) && (x_dir == -1 ==> along == -x),
                ;
                assert(across == z * z_dir) by (nonlinear_arith)
                    requires
                        z_dir == 1 || z_dir == -1,
                        (z_dir == 1 ==> across == z) && (z_dir == -1 ==> across == -z),
                ;
                assert(along * x_dir == x) by (nonlinear_arith)
                    requires
                        x_dir == 1 || x_dir == -1,
                        along == x * x_dir,
                ;
                assert(across * z_dir == z) by (nonlinear_arith)
                    requires
                        z_dir == 1 || z_dir == -1,
                        across == z * z_dir,
                ;
                let rg = ring(x as int, x_dir as int, z_dir as int);
                assert(p == rg[k as int]);
                assert forall|j: int| 0 <= j < out@.len() implies out@[j] != p by {
                    if j < before.len() {
                        assert(ring_of(before[j], x_dir as int, z_dir as int) < x);
                        assert(ring_of(p, x_dir as int, z_dir as int) == x);
                    } else {
                        let kj = j - before.len();
                        assert(out@[j] == rg[kj]);
                        assert(offset_of(rg[kj], z_dir as int) == ring_offset(kj));
                        assert(offset_of(p, z_dir as int) == ring_offset(k as int));
                    }
                }
                assert(rg.take(k + 1) == rg.take(k as int).push(p));
            }
            out.push(p);
            proof {
                assert(out@ =~= before + ring(x as int, x_dir as int, z_dir as int).take(k + 1));
            }
            k += 1;
        }
        proof {
            let rg = ring(x as int, x_dir as int, z_dir as int);
            assert(rg.take(len as int) =~= rg);
            assert(spiral(x as int, x_dir as int, z_dir as int) == spiral((x - 1) as int, x_dir as int, z_dir as int) + rg);
            assert forall|j: int| 0 <= j < out@.len() implies {
                &&& 1 <= ring_of(#[trigger] out@[j], x_dir as int, z_dir as int) < x + 1
                &&& out@[j].1 == 0
            } by {
                if j >= before.len() {
                    assert(out@[j] == rg[j - before.len()]);
                }
            }
            if z_dir > 0 {
                assert((x - 1) * x + 2 * x == x * (x + 1)) by (nonlinear_arith);
            } else {
                assert((x - 1) * (x + 1) + 2 * x + 1 == x * (x + 2)) by (nonlinear_arith);
            }
        }
        x += 1;
    }
    out
}

proof fn lemma_same_cell(a: int, b: int, p: int)
    requires
        a * 128 <= p < (a + 1) * 128,
        b * 128 <= p < (b + 1) * 128,
    ensures
        a == b,
{
    assert(a == b) by (nonlinear_arith)
        requires
            a * 128 <= p < (a + 1) * 128,
            b * 128 <= p < (b + 1) * 128,
    ;
}

/// Distinct chunks do not overlap: no lattice point lies in the bounds of
/// two different chunk coordinates.
pub proof fn lemma_distinct_chunks_disjoint(a: (i32, i32, i32), b: (i32, i32, i32), x: int, y: int, z: int)
    requires
        a != b,
        chunk_in_world(a.0 as int),
        chunk_in_world(a.1 as int),
        chunk_in_world(a.2 as int),
        chunk_in_world(b.0 as int),
        chunk_in_world(b.1 as int),
        chunk_in_world(b.2 as int),
    ensures
        !(bounds_of_chunk(a.0 as int, a.1 as int, a.2 as int).contains_spec(x, y, z)
            && bounds_of_chunk(b.0 as int, b.1 as int, b.2 as int).contains_spec(x, y, z)),
{
    if bounds_of_chunk(a.0 as int, a.1 as int, a.2 as int).contains_spec(x, y, z)
        && bounds_of_chunk(b.0 as int, b.1 as int, b.2 as int).contains_spec(x, y, z) {
        lemma_same_cell(a.0 as int, b.0 as int, x);
        lemma_same_cell(a.1 as int, b.1 as int, y);
        lemma_same_cell(a.2 as int, b.2 as int, z);
    }
}

} // verus!
