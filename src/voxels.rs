use vstd::prelude::*;

verus! {

/// A cubic three-dimensional array of optional block type ids, held in an
/// `ndarray::Array3`. The array lives in a hidden field because Verus
/// refuses a declaration of `ndarray::ArrayBase` (its `RawData` bound); its
/// contents are named by `array_cells` and `array_side`.
#[verifier::external_body]
pub struct VoxelArray {
    cells: ndarray::Array3<Option<u32>>,
}

/// The elements of the array in row-major order: element `(x, y, z)` of an
/// array of side `n` stands at `(x * n + y) * n + z`.
pub uninterp spec fn array_cells(a: VoxelArray) -> Seq<Option<u32>>;

/// The side length of the array.
pub uninterp spec fn array_side(a: VoxelArray) -> nat;

pub open spec fn cube_index(n: nat, x: int, y: int, z: int) -> int {
    (x * n + y) * n + z
}

/// Relies on ndarray's `Array3::from_elem`: an array of shape `(n, n, n)`
/// with every element `None`.
#[verifier::external_body]
fn array_empty(n: usize) -> (r: VoxelArray)
    requires
        n <= 1024,
    ensures
        array_side(r) == n,
        array_cells(r) == Seq::new((n * n * n) as nat, |i: int| None::<u32>),
{
    VoxelArray { cells: ndarray::Array3::from_elem((n, n, n), None) }
}

/// Relies on ndarray's `ArrayBase::get`: the element at `(x, y, z)`, or `None`
/// when an index is past the side.
#[verifier::external_body]
fn array_get(a: &VoxelArray, x: usize, y: usize, z: usize) -> (r: Option<Option<u32>>)
    ensures
        (x < array_side(*a) && y < array_side(*a) && z < array_side(*a)) ==> r == Some(
            array_cells(*a)[cube_index(array_side(*a), x as int, y as int, z as int)],
        ),
        !(x < array_side(*a) && y < array_side(*a) && z < array_side(*a)) ==> r is None,
{
    a.cells.get((x, y, z)).copied()
}

/// Relies on ndarray's `IndexMut` for `[usize; 3]`: overwrites the element at
/// `(x, y, z)`, which must lie inside the array.
#[verifier::external_body]
fn array_set(a: &mut VoxelArray, x: usize, y: usize, z: usize, v: Option<u32>)
    requires
        x < array_side(*old(a)),
        y < array_side(*old(a)),
        z < array_side(*old(a)),
    ensures
        array_side(*final(a)) == array_side(*old(a)),
        array_cells(*final(a)) == array_cells(*old(a)).update(
            cube_index(array_side(*old(a)), x as int, y as int, z as int),
            v,
        ),
{
    a.cells[[x, y, z]] = v;
}

/// Largest side length of a block grid.
pub const MAX_GRID_SIZE: usize = 256;

/// Element positions of distinct cells of a cube of side `n` are distinct and
/// lie inside the cube's element sequence.
pub proof fn lemma_cube_index(n: nat, x: int, y: int, z: int, x2: int, y2: int, z2: int)
    requires
        0 <= x < n,
        0 <= y < n,
        0 <= z < n,
        0 <= x2 < n,
        0 <= y2 < n,
        0 <= z2 < n,
    ensures
        0 <= cube_index(n, x, y, z) < n * n * n,
        cube_index(n, x, y, z) == cube_index(n, x2, y2, z2) ==> (x == x2 && y == y2 && z == z2),
{
    assert(0 <= (x * n + y) * n + z < n * n * n) by (nonlinear_arith)
        requires
            0 <= x < n,
            0 <= y < n,
            0 <= z < n,
    ;
    assert(((x * n + y) * n + z == (x2 * n + y2) * n + z2) ==> (x == x2 && y == y2 && z == z2))
        by (nonlinear_arith)
        requires
            0 <= x < n,
            0 <= y < n,
            0 <= z < n,
            0 <= x2 < n,
            0 <= y2 < n,
            0 <= z2 < n,
    ;
}

/// A block: a solid voxel of one type.
#[derive(Clone, Copy, Debug, PartialEq, Eq, Structural)]
pub struct Block {
    pub type_id: u32,
}

impl Block {
    pub fn new(type_id: u32) -> (r: Block)
        ensures
            r.type_id == type_id,
    {
        Block { type_id }
    }
}

/// A cube of `size`³ voxels, each empty or holding a typed block.
pub struct BlockGrid {
    size: usize,
    cells: VoxelArray,
}

impl BlockGrid {
    pub closed spec fn side(&self) -> nat {
        self.size as nat
    }

    /// The block type at each voxel, in row-major order.
    pub closed spec fn cells(&self) -> Seq<Option<u32>> {
        array_cells(self.cells)
    }

    pub closed spec fn wf(&self) -> bool {
        &&& 1 <= self.size <= MAX_GRID_SIZE
        &&& array_side(self.cells) == self.size
        &&& array_cells(self.cells).len() == self.size * self.size * self.size
    }

    /// The block type at a voxel; `None` for an empty voxel and for every
    /// position outside the grid.
    pub open spec fn at(&self, x: int, y: int, z: int) -> Option<u32> {
        if 0 <= x < self.side() && 0 <= y < self.side() && 0 <= z < self.side() {
            self.cells()[cube_index(self.side(), x, y, z)]
        } else {
            None
        }
    }

    pub open spec fn solid(&self, x: int, y: int, z: int) -> bool {
        self.at(x, y, z).is_some()
    }

    /// An all-empty grid of side `size`.
    pub fn new(size: usize) -> (r: BlockGrid)
        requires
            1 <= size <= MAX_GRID_SIZE,
        ensures
            r.wf(),
            r.side() == size,
            forall|x: int, y: int, z: int| r.at(x, y, z) is None,
    {
        let cells = array_empty(size);
        let r = BlockGrid { size, cells };
        assert forall|x: int, y: int, z: int| r.at(x, y, z) is None by {
            if 0 <= x < size && 0 <= y < size && 0 <= z < size {
                lemma_cube_index(size as nat, x, y, z, x, y, z);
            }
        }
        r
    }

    pub fn size(&self) -> (r: usize)
        ensures
            r == self.side(),
            self.wf() ==> 1 <= r <= MAX_GRID_SIZE,
    {
        self.size
    }

    /// The block at a voxel, `None` when it is empty or outside the grid.
    pub fn get(&self, x: usize, y: usize, z: usize) -> (r: Option<Block>)
        requires
            self.wf(),
        ensures
            r is Some <==> self.solid(x as int, y as int, z as int),
            r is Some ==> r->0.type_id == self.at(x as int, y as int, z as int)->0,
    {
        match array_get(&self.cells, x, y, z) {
            Some(Some(t)) => Some(Block { type_id: t }),
            _ => None,
        }
    }

    /// Puts a block into a voxel of the grid, or empties it.
    pub fn set(&mut self, x: usize, y: usize, z: usize, block: Option<Block>)
        requires
            old(self).wf(),
            x < old(self).side(),
            y < old(self).side(),
            z < old(self).side(),
        ensures
            final(self).wf(),
            final(self).side() == old(self).side(),
            forall|a: int, b: int, c: int|
                #![trigger final(self).at(a, b, c)]
                final(self).at(a, b, c) == if a == x && b == y && c == z {
                    match block {
                        Some(bl) => Some(bl.type_id),
                        None => None,
                    }
                } else {
                    old(self).at(a, b, c)
                },
    {
        let v = match block {
            Some(b) => Some(b.type_id),
            None => None,
        };
        let ghost pre = *self;
        proof {
            lemma_cube_index(self.size as nat, x as int, y as int, z as int, x as int, y as int, z as int);
        }
        array_set(&mut self.cells, x, y, z, v);
        proof {
            let n = self.size as nat;
            assert forall|a: int, b: int, c: int|
                #![trigger self.at(a, b, c)]
                self.at(a, b, c) == if a == x && b == y && c == z {
                    v
                } else {
                    pre.at(a, b, c)
                } by {
                if 0 <= a < n && 0 <= b < n && 0 <= c < n {
                    lemma_cube_index(n, a, b, c, x as int, y as int, z as int);
                }
            }
        }
    }
}

} // verus!
