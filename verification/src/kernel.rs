//! Neighbor indexing on a toroidally wrapped lattice, and the packing of the
//! cells at a kernel's indices into an unsigned integer.

use vstd::prelude::*;

verus! {

use vstd::arithmetic::power2::pow2;
use vstd::arithmetic::power2::lemma_pow2_unfold;
use vstd::arithmetic::power2::lemma_pow2_strictly_increases;
use vstd::arithmetic::power2::lemma2_to64;

/// The cell a kernel index points at, read as one bit.
pub open spec fn bit_of(space: Seq<bool>, i: usize) -> nat {
    if space[i as int] {
        1
    } else {
        0
    }
}

/// The packed neighbor pattern: the cells at the given indices, read in
/// order, first index as the most significant bit.
pub open spec fn pack(idx: Seq<usize>, space: Seq<bool>) -> nat
    decreases idx.len(),
{
    if idx.len() == 0 {
        0
    } else {
        2 * pack(idx.drop_last(), space) + bit_of(space, idx.last())
    }
}

/// The packed pattern written out as a weighted sum: the cell at position j
/// of a kernel of k indices contributes its bit times 2^(k - 1 - j).
pub open spec fn weighted_sum(idx: Seq<usize>, space: Seq<bool>) -> nat
    decreases idx.len(),
{
    if idx.len() == 0 {
        0
    } else {
        bit_of(space, idx[0]) * pow2((idx.len() - 1) as nat) + weighted_sum(
            idx.drop_first(),
            space,
        )
    }
}

/// A packed pattern of k cells lies below 2^k.
pub proof fn lemma_pack_bound(idx: Seq<usize>, space: Seq<bool>)
    ensures
        pack(idx, space) < pow2(idx.len()),
    decreases idx.len(),
{
    if idx.len() == 0 {
        lemma2_to64();
    } else {
        lemma_pack_bound(idx.drop_last(), space);
        lemma_pow2_unfold(idx.len());
    }
}

/// The weighted sum obeys the same step as `pack`: dropping the last index
/// halves the sum of the rest.
proof fn lemma_weighted_sum_snoc(idx: Seq<usize>, space: Seq<bool>)
    requires
        idx.len() >= 1,
    ensures
        weighted_sum(idx, space) == 2 * weighted_sum(idx.drop_last(), space) + bit_of(
            space,
            idx.last(),
        ),
    decreases idx.len(),
{
    if idx.len() == 1 {
        lemma2_to64();
        assert(idx.drop_last() =~= Seq::<usize>::empty());
        assert(idx.drop_first() =~= Seq::<usize>::empty());
    } else {
        let tail = idx.drop_first();
        lemma_weighted_sum_snoc(tail, space);
        assert(tail.drop_last() =~= idx.drop_last().drop_first());
        assert(tail.last() == idx.last());
        assert(idx.drop_last()[0] == idx[0]);
        lemma_pow2_unfold((idx.len() - 1) as nat);
        let b0 = bit_of(space, idx[0]);
        assert(b0 * pow2((idx.len() - 1) as nat) == 2 * (b0 * pow2((idx.len() - 2) as nat)))
            by {
            if space[idx[0] as int] {
                assert(b0 == 1);
            } else {
                assert(b0 == 0);
            }
        }
    }
}

/// Bit-packing as a sum: packing a kernel's indices against a lattice yields
/// the sum, over the positions j of a kernel of k indices, of the cell at
/// index j read as a bit and weighted by 2^(k - 1 - j).
pub proof fn lemma_pack_is_weighted_sum(idx: Seq<usize>, space: Seq<bool>)
    ensures
        pack(idx, space) == weighted_sum(idx, space),
    decreases idx.len(),
{
    if idx.len() > 0 {
        lemma_pack_is_weighted_sum(idx.drop_last(), space);
        lemma_weighted_sum_snoc(idx, space);
    }
}

/// The left (or upper) neighbor coordinate under toroidal wraparound.
pub open spec fn wrap_dec(i: usize, size: usize) -> usize {
    if i == 0 {
        (size - 1) as usize
    } else {
        (i - 1) as usize
    }
}

/// The right (or lower) neighbor coordinate under toroidal wraparound.
pub open spec fn wrap_inc(i: usize, size: usize) -> usize {
    if i == size - 1 {
        0usize
    } else {
        (i + 1) as usize
    }
}

/// The ordered 1D kernel for coordinate x: left neighbor, x itself, right
/// neighbor, wrapped toroidally.
pub open spec fn kernel1_indices(x: usize, size: usize) -> Seq<usize> {
    seq![wrap_dec(x, size), x, wrap_inc(x, size)]
}

/// A neighbor indexer: an ordered list of lattice indices, plus the packing
/// of a lattice's cells at those indices into an unsigned integer.
pub trait Kernel {
    /// The ordered neighbor indices.
    spec fn indices(&self) -> Seq<usize>;

    /// How many indices the kernel holds.
    fn num_indices(&self) -> (n: usize)
        ensures
            n == self.indices().len(),
    ;

    /// The index at position j in kernel order.
    fn index_at(&self, j: usize) -> (i: usize)
        requires
            j < self.indices().len(),
        ensures
            i == self.indices()[j as int],
    ;

    /// Read the cell at each index in kernel order and pack the bits into an
    /// unsigned integer, first index as the most significant bit.
    fn eval(&self, space: &[bool]) -> (packed: u16)
        requires
            self.indices().len() <= 16,
            forall|j: int| 0 <= j < self.indices().len() ==> self.indices()[j] < space@.len(),
        ensures
            packed as nat == pack(self.indices(), space@),
    ;
}

/// Packs the cells at the given indices by one left-to-right pass.
fn eval_indices(idx: &[usize], space: &[bool]) -> (packed: u16)
    requires
        idx@.len() <= 16,
        forall|j: int| 0 <= j < idx@.len() ==> idx@[j] < space@.len(),
    ensures
        packed as nat == pack(idx@, space@),
{
    let n = idx.len();
    let mut val: u16 = 0;
    let mut j: usize = 0;
    while j < n
        invariant
            j <= n,
            n == idx@.len(),
            n <= 16,
            forall|t: int| 0 <= t < idx@.len() ==> idx@[t] < space@.len(),
            val as nat == pack(idx@.take(j as int), space@),
        decreases n - j,
    {
        proof {
            lemma_pack_bound(idx@.take(j as int), space@);
            lemma_pow2_unfold((j + 1) as nat);
            if j + 1 < 16 {
                lemma_pow2_strictly_increases((j + 1) as nat, 16);
            }
            lemma2_to64();
            assert(2 * (val as nat) + 1 < pow2((j + 1) as nat));
        }
        let i = idx[j];
        let cell = space[i];
        val = if cell {
            2 * val + 1
        } else {
            2 * val
        };
        proof {
            let taken = idx@.take((j + 1) as int);
            assert(taken.drop_last() =~= idx@.take(j as int));
            assert(taken.last() == idx@[j as int]);
        }
        j = j + 1;
    }
    proof {
        assert(idx@.take(n as int) =~= idx@);
    }
    val
}

/// The ordered triple of indices [left, self, right] of a cell's 1D
/// neighborhood on a toroidally wrapped lattice.
pub struct Kernel1D([usize; 3]);

impl Kernel1D {
    /// Build the 1D kernel for coordinate x on a lattice of the given size.
    pub fn new(x: usize, size: usize) -> (kernel: Self)
        requires
            x < size,
        ensures
            kernel.indices() == kernel1_indices(x, size),
            forall|j: int| 0 <= j < kernel.indices().len() ==> kernel.indices()[j] < size,
    {
        let kernel = Kernel1D(
            [
                if x == 0 {
                    size - 1
                } else {
                    x - 1
                },
                x,
                if x == size - 1 {
                    0
                } else {
                    x + 1
                },
            ],
        );
        proof {
            assert(kernel.indices() =~= kernel1_indices(x, size));
        }
        kernel
    }
}

impl Kernel for Kernel1D {
    closed spec fn indices(&self) -> Seq<usize> {
        self.0@
    }

    fn num_indices(&self) -> usize {
        3
    }

    fn index_at(&self, j: usize) -> usize {
        self.0[j]
    }

    fn eval(&self, space: &[bool]) -> u16 {
        eval_indices(vstd::array::array_as_slice(&self.0), space)
    }
}

/// One index of the row-major flattening of a size x size grid.
pub open spec fn kernel2_index(row: usize, col: usize, size: usize) -> usize {
    (row * size + col) as usize
}

/// The ordered Moore neighborhood of (x, y) on a size x size toroidal grid,
/// row-major flattened: the row above, the row of y, the row below, and in
/// each row the column left of x, of x, and right of x.
pub open spec fn kernel2_indices(x: usize, y: usize, size: usize) -> Seq<usize> {
    let left = wrap_dec(x, size);
    let right = wrap_inc(x, size);
    let top = wrap_dec(y, size);
    let bottom = wrap_inc(y, size);
    seq![
        kernel2_index(top, left, size),
        kernel2_index(top, x, size),
        kernel2_index(top, right, size),
        kernel2_index(y, left, size),
        kernel2_index(y, x, size),
        kernel2_index(y, right, size),
        kernel2_index(bottom, left, size),
        kernel2_index(bottom, x, size),
        kernel2_index(bottom, right, size),
    ]
}

/// The ordered 9-tuple of indices of a cell's Moore neighborhood on a
/// size x size toroidal grid, row-major flattened.
pub struct Kernel2D([usize; 9]);

impl Kernel2D {
    /// Build the 2D kernel for coordinates (x, y) on a grid of the given
    /// size per axis.
    #[verifier::rlimit(50)]
    pub fn new(x: usize, y: usize, size: usize) -> (kernel: Self)
        requires
            x < size,
            y < size,
            size as int * size as int - 1 <= usize::MAX as int,
        ensures
            kernel.indices() == kernel2_indices(x, y, size),
            forall|j: int|
                0 <= j < kernel.indices().len() ==> (kernel.indices()[j] as int) < size as int
                    * size as int,
    {
        let left = if x == 0 {
            size - 1
        } else {
            x - 1
        };
        let right = if x == size - 1 {
            0
        } else {
            x + 1
        };
        let top_row = if y == 0 {
            size - 1
        } else {
            y - 1
        };
        let bottom_row = if y == size - 1 {
            0
        } else {
            y + 1
        };
        proof {
            lemma_row_col_in_grid(top_row, left, size);
            lemma_row_col_in_grid(top_row, x, size);
            lemma_row_col_in_grid(top_row, right, size);
            lemma_row_col_in_grid(y, left, size);
            lemma_row_col_in_grid(y, x, size);
            lemma_row_col_in_grid(y, right, size);
            lemma_row_col_in_grid(bottom_row, left, size);
            lemma_row_col_in_grid(bottom_row, x, size);
            lemma_row_col_in_grid(bottom_row, right, size);
        }
        let top = top_row * size;
        let middle = y * size;
        let bottom = bottom_row * size;
        let kernel = Kernel2D(
            [
                top + left,
                top + x,
                top + right,
                middle + left,
                middle + x,
                middle + right,
                bottom + left,
                bottom + x,
                bottom + right,
            ],
        );
        proof {
            assert(kernel.indices() =~= kernel2_indices(x, y, size));
        }
        kernel
    }
}

/// A row and a column inside the grid name an index inside its row-major
/// flattening.
proof fn lemma_row_col_in_grid(row: usize, col: usize, size: usize)
    requires
        row < size,
        col < size,
    ensures
        row as int * size as int + col as int <= size as int * size as int - 1,
{
    let s = size as int;
    assert(row as int * s <= (s - 1) * s) by (nonlinear_arith)
        requires
            0 <= row as int <= s - 1,
            s >= 0,
    ;
    assert((s - 1) * s == s * s - s) by (nonlinear_arith);
}

impl Kernel for Kernel2D {
    closed spec fn indices(&self) -> Seq<usize> {
        self.0@
    }

    fn num_indices(&self) -> usize {
        9
    }

    fn index_at(&self, j: usize) -> usize {
        self.0[j]
    }

    fn eval(&self, space: &[bool]) -> u16 {
        eval_indices(vstd::array::array_as_slice(&self.0), space)
    }
}

} // verus!
