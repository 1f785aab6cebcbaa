use vstd::prelude::*;
use crate::scalar::{Scalar, SCALE, EPSILON_RAW, abs_int, tdiv};
use crate::point::Point;
use crate::vector::Vector;

verus! {

/// Largest cell magnitude (in raw grid steps) admitted by matrix addition,
/// subtraction and multiplication.
pub const CELL_LIMIT: i128 = 1_000_000_000_000_000;

/// Largest cell magnitude (in raw grid steps) admitted by the determinant.
pub const DET_CELL_LIMIT: i128 = 10_000_000_000_000;

/// Largest cell magnitude (in raw grid steps) admitted by the inverse.
pub const INV_CELL_LIMIT: i128 = 100_000_000_000;

/// Most columns a matrix product admits.
pub const MUL_DIM_LIMIT: usize = 1_000;

/// A rectangular grid of fixed-point numbers.
///
/// Operators never mutate a matrix: every arithmetic operation returns a new
/// one. In-place change happens only through `write_cell` and `patch`.
#[derive(Debug)]
pub struct Matrix {
    pub cells: Vec<Vec<Scalar>>,
    pub row_count: usize,
    pub col_count: usize,
}

impl Matrix {
    /// The stated row and column counts describe the actual grid.
    pub open spec fn wf(self) -> bool {
        &&& self.cells@.len() == self.row_count
        &&& forall|i: int|
            0 <= i < self.cells@.len() ==> (#[trigger] self.cells@[i])@.len() == self.col_count
    }

    /// The grid as a sequence of rows of raw grid-step counts.
    pub open spec fn grid(self) -> Seq<Seq<int>> {
        Seq::new(
            self.cells@.len(),
            |i: int| Seq::new(self.cells@[i]@.len(), |j: int| self.cells@[i]@[j].raw as int),
        )
    }

    /// The raw value of one cell.
    pub open spec fn at(self, r: int, c: int) -> int {
        self.cells@[r]@[c].raw as int
    }
}

/// Every cell of `m` lies within `b` of zero.
pub open spec fn cells_within(m: Seq<Seq<int>>, b: int) -> bool {
    forall|i: int, j: int|
        0 <= i < m.len() && 0 <= j < m[i].len() ==> -b <= #[trigger] m[i][j] <= b
}

/// `m` is an `n` by `n` grid.
pub open spec fn square_grid(m: Seq<Seq<int>>, n: int) -> bool {
    m.len() == n && forall|i: int| 0 <= i < m.len() ==> (#[trigger] m[i]).len() == n
}

impl Matrix {
    /// A zero-filled matrix of the given shape.
    pub fn new(row_num: usize, col_num: usize) -> (m: Matrix)
        ensures
            m.wf(),
            m.row_count == row_num,
            m.col_count == col_num,
            forall|i: int, j: int| 0 <= i < row_num && 0 <= j < col_num ==> m.at(i, j) == 0,
    {
        let mut grid: Vec<Vec<Scalar>> = Vec::new();
        for r in 0..row_num
            invariant
                grid@.len() == r,
                forall|i: int| 0 <= i < r ==> (#[trigger] grid@[i])@.len() == col_num,
                forall|i: int, j: int|
                    0 <= i < r && 0 <= j < col_num ==> (#[trigger] grid@[i]@[j]).raw == 0,
        {
            let mut row: Vec<Scalar> = Vec::new();
            for c in 0..col_num
                invariant
                    row@.len() == c,
                    forall|j: int| 0 <= j < c ==> (#[trigger] row@[j]).raw == 0,
            {
                row.push(Scalar { raw: 0 });
            }
            grid.push(row);
        }
        Matrix { cells: grid, row_count: row_num, col_count: col_num }
    }

    /// The `size` by `size` identity: one on the diagonal, zero elsewhere.
    pub fn identity(size: usize) -> (m: Matrix)
        ensures
            m.wf(),
            m.row_count == size,
            m.col_count == size,
            forall|i: int, j: int|
                0 <= i < size && 0 <= j < size ==> m.at(i, j) == if i == j {
                    SCALE as int
                } else {
                    0
                },
    {
        let mut matrix = Matrix::new(size, size);
        let mut r: usize = 0;
        while r < size
            invariant
                matrix.wf(),
                matrix.row_count == size,
                matrix.col_count == size,
                r <= size,
                forall|i: int, j: int|
                    0 <= i < r && 0 <= j < size ==> matrix.at(i, j) == if i == j {
                        SCALE as int
                    } else {
                        0
                    },
                forall|i: int, j: int| r <= i < size && 0 <= j < size ==> matrix.at(i, j) == 0,
            decreases size - r,
        {
            let mut c: usize = 0;
            while c < size
                invariant
                    matrix.wf(),
                    matrix.row_count == size,
                    matrix.col_count == size,
                    r < size,
                    c <= size,
                    forall|i: int, j: int|
                        0 <= i < r && 0 <= j < size ==> matrix.at(i, j) == if i == j {
                            SCALE as int
                        } else {
                            0
                        },
                    forall|j: int|
                        0 <= j < c ==> matrix.at(r as int, j) == if r == j {
                            SCALE as int
                        } else {
                            0
                        },
                    forall|j: int| c <= j < size ==> matrix.at(r as int, j) == 0,
                    forall|i: int, j: int|
                        r < i < size && 0 <= j < size ==> matrix.at(i, j) == 0,
                decreases size - c,
            {
                if r == c {
                    matrix.write_cell(r, c, Scalar { raw: SCALE });
                } else {
                    matrix.write_cell(r, c, Scalar { raw: 0 });
                }
                c = c + 1;
            }
            r = r + 1;
        }
        matrix
    }

    /// The raw value held at `(row, col)`; bounds are the caller's duty.
    pub fn get_cell(&self, row: usize, col: usize) -> (v: Scalar)
        requires
            self.wf(),
            row < self.row_count,
            col < self.col_count,
        ensures
            v.raw == self.at(row as int, col as int),
    {
        self.cells[row][col]
    }

    /// Overwrites one cell; the rest of the grid is untouched.
    pub fn write_cell(&mut self, row: usize, col: usize, value: Scalar)
        requires
            old(self).wf(),
            row < old(self).row_count,
            col < old(self).col_count,
        ensures
            final(self).wf(),
            final(self).row_count == old(self).row_count,
            final(self).col_count == old(self).col_count,
            final(self).at(row as int, col as int) == value.raw,
            forall|i: int, j: int|
                0 <= i < old(self).row_count && 0 <= j < old(self).col_count && !(i == row
                    && j == col) ==> final(self).at(i, j) == old(self).at(i, j),
    {
        let mut r = self.cells.remove(row);
        r.set(col, value);
        self.cells.insert(row, r);
    }

    /// Bulk overwrite; the new grid must have exactly the matrix's shape.
    pub fn patch(&mut self, new_value: Vec<Vec<Scalar>>)
        requires
            old(self).wf(),
            new_value@.len() == old(self).row_count,
            forall|i: int|
                0 <= i < new_value@.len() ==> (#[trigger] new_value@[i])@.len() == old(
                    self,
                ).col_count,
        ensures
            final(self).wf(),
            final(self).row_count == old(self).row_count,
            final(self).col_count == old(self).col_count,
            forall|i: int, j: int|
                0 <= i < old(self).row_count && 0 <= j < old(self).col_count ==> final(self).at(
                    i,
                    j,
                ) == (#[trigger] new_value@[i]@[j]).raw,
    {
        let row_count = self.row_count;
        let col_count = self.col_count;
        self.cells = new_value;
        proof {
            assert(self.wf());
        }
    }

    /// One column, top to bottom.
    pub fn get_col(&self, col_index: usize) -> (v: Vec<Scalar>)
        requires
            self.wf(),
            col_index < self.col_count,
        ensures
            v@.len() == self.row_count,
            forall|i: int| 0 <= i < self.row_count ==> (#[trigger] v@[i]).raw == self.at(
                i,
                col_index as int,
            ),
    {
        let mut vec: Vec<Scalar> = Vec::new();
        let mut row_index: usize = 0;
        while row_index < self.row_count
            invariant
                self.wf(),
                col_index < self.col_count,
                row_index <= self.row_count,
                vec@.len() == row_index,
                forall|i: int| 0 <= i < row_index ==> (#[trigger] vec@[i]).raw == self.at(
                    i,
                    col_index as int,
                ),
            decreases self.row_count - row_index,
        {
            vec.push(self.get_cell(row_index, col_index));
            row_index = row_index + 1;
        }
        vec
    }

    /// One row, left to right.
    pub fn get_row(&self, row_index: usize) -> (v: Vec<Scalar>)
        requires
            self.wf(),
            row_index < self.row_count,
        ensures
            v@.len() == self.col_count,
            forall|j: int| 0 <= j < self.col_count ==> (#[trigger] v@[j]).raw == self.at(
                row_index as int,
                j,
            ),
    {
        let mut vec: Vec<Scalar> = Vec::new();
        let mut col_index: usize = 0;
        while col_index < self.col_count
            invariant
                self.wf(),
                row_index < self.row_count,
                col_index <= self.col_count,
                vec@.len() == col_index,
                forall|j: int| 0 <= j < col_index ==> (#[trigger] vec@[j]).raw == self.at(
                    row_index as int,
                    j,
                ),
            decreases self.col_count - col_index,
        {
            vec.push(self.get_cell(row_index, col_index));
            col_index = col_index + 1;
        }
        vec
    }

    /// The row/column-swapped matrix.
    pub fn transpose(&self) -> (m: Matrix)
        requires
            self.wf(),
        ensures
            m.wf(),
            m.row_count == self.col_count,
            m.col_count == self.row_count,
            forall|i: int, j: int|
                0 <= i < self.col_count && 0 <= j < self.row_count ==> m.at(i, j) == self.at(j, i),
    {
        let mut new_matrix = Matrix::new(self.col_count, self.row_count);
        let mut col_index: usize = 0;
        while col_index < self.col_count
            invariant
                self.wf(),
                new_matrix.wf(),
                new_matrix.row_count == self.col_count,
                new_matrix.col_count == self.row_count,
                col_index <= self.col_count,
                forall|i: int, j: int|
                    0 <= i < col_index && 0 <= j < self.row_count ==> new_matrix.at(i, j)
                        == self.at(j, i),
            decreases self.col_count - col_index,
        {
            let mut row_index: usize = 0;
            while row_index < self.row_count
                invariant
                    self.wf(),
                    new_matrix.wf(),
                    new_matrix.row_count == self.col_count,
                    new_matrix.col_count == self.row_count,
                    col_index < self.col_count,
                    row_index <= self.row_count,
                    forall|i: int, j: int|
                        0 <= i < col_index && 0 <= j < self.row_count ==> new_matrix.at(i, j)
                            == self.at(j, i),
                    forall|j: int|
                        0 <= j < row_index ==> new_matrix.at(col_index as int, j) == self.at(
                            j,
                            col_index as int,
                        ),
                decreases self.row_count - row_index,
            {
                let v = self.get_cell(row_index, col_index);
                new_matrix.write_cell(col_index, row_index, v);
                row_index = row_index + 1;
            }
            col_index = col_index + 1;
        }
        new_matrix
    }

    /// The 4 by 4 affine translation by `(x, y, z)`.
    pub fn translation_3d(x: Scalar, y: Scalar, z: Scalar) -> (m: Matrix)
        ensures
            m.wf(),
            m.row_count == 4,
            m.col_count == 4,
            m.at(0, 3) == x.raw && m.at(1, 3) == y.raw && m.at(2, 3) == z.raw,
            forall|i: int, j: int|
                0 <= i < 4 && 0 <= j < 4 && j != 3 ==> m.at(i, j) == if i == j {
                    SCALE as int
                } else {
                    0
                },
            m.at(3, 3) == SCALE as int,
    {
        let mut m = Matrix::identity(4);
        m.write_cell(0, 3, x);
        m.write_cell(1, 3, y);
        m.write_cell(2, 3, z);
        m
    }

    /// The 4 by 4 affine scaling by `(x, y, z)`.
    pub fn scaling_3d(x: Scalar, y: Scalar, z: Scalar) -> (m: Matrix)
        ensures
            m.wf(),
            m.row_count == 4,
            m.col_count == 4,
            m.at(0, 0) == x.raw && m.at(1, 1) == y.raw && m.at(2, 2) == z.raw,
            m.at(3, 3) == SCALE as int,
            forall|i: int, j: int| 0 <= i < 4 && 0 <= j < 4 && i != j ==> m.at(i, j) == 0,
    {
        let mut m = Matrix::identity(4);
        m.write_cell(0, 0, x);
        m.write_cell(1, 1, y);
        m.write_cell(2, 2, z);
        m
    }

    /// The 4 by 4 rotation about the X axis, given the angle's cosine and sine.
    pub fn rotate_x_3d(cos_t: Scalar, sin_t: Scalar) -> (m: Matrix)
        requires
            sin_t.raw != i128::MIN,
        ensures
            m.wf(),
            m.row_count == 4,
            m.col_count == 4,
            m.at(0, 0) == SCALE as int && m.at(3, 3) == SCALE as int,
            m.at(1, 1) == cos_t.raw && m.at(2, 2) == cos_t.raw,
            m.at(1, 2) == -sin_t.raw && m.at(2, 1) == sin_t.raw,
            forall|i: int, j: int|
                0 <= i < 4 && 0 <= j < 4 && i != j && !(i == 1 && j == 2) && !(i == 2 && j == 1)
                    ==> m.at(i, j) == 0,
    {
        let mut m = Matrix::identity(4);
        m.write_cell(1, 1, cos_t);
        m.write_cell(1, 2, sin_t.neg());
        m.write_cell(2, 1, sin_t);
        m.write_cell(2, 2, cos_t);
        m
    }

    /// The 4 by 4 rotation about the Y axis, given the angle's cosine and sine.
    pub fn rotate_y_3d(cos_t: Scalar, sin_t: Scalar) -> (m: Matrix)
        requires
            sin_t.raw != i128::MIN,
        ensures
            m.wf(),
            m.row_count == 4,
            m.col_count == 4,
            m.at(1, 1) == SCALE as int && m.at(3, 3) == SCALE as int,
            m.at(0, 0) == cos_t.raw && m.at(2, 2) == cos_t.raw,
            m.at(0, 2) == sin_t.raw && m.at(2, 0) == -sin_t.raw,
            forall|i: int, j: int|
                0 <= i < 4 && 0 <= j < 4 && i != j && !(i == 0 && j == 2) && !(i == 2 && j == 0)
                    ==> m.at(i, j) == 0,
    {
        let mut m = Matrix::identity(4);
        m.write_cell(0, 0, cos_t);
        m.write_cell(0, 2, sin_t);
        m.write_cell(2, 0, sin_t.neg());
        m.write_cell(2, 2, cos_t);
        m
    }

    /// The 4 by 4 rotation about the Z axis, given the angle's cosine and sine.
    pub fn rotate_z_3d(cos_t: Scalar, sin_t: Scalar) -> (m: Matrix)
        requires
            sin_t.raw != i128::MIN,
        ensures
            m.wf(),
            m.row_count == 4,
            m.col_count == 4,
            m.at(2, 2) == SCALE as int && m.at(3, 3) == SCALE as int,
            m.at(0, 0) == cos_t.raw && m.at(1, 1) == cos_t.raw,
            m.at(0, 1) == -sin_t.raw && m.at(1, 0) == sin_t.raw,
            forall|i: int, j: int|
                0 <= i < 4 && 0 <= j < 4 && i != j && !(i == 0 && j == 1) && !(i == 1 && j == 0)
                    ==> m.at(i, j) == 0,
    {
        let mut m = Matrix::identity(4);
        m.write_cell(0, 0, cos_t);
        m.write_cell(0, 1, sin_t.neg());
        m.write_cell(1, 0, sin_t);
        m.write_cell(1, 1, cos_t);
        m
    }
}

/// One column of a grid, top to bottom.
pub open spec fn col_seq(g: Seq<Seq<int>>, j: int) -> Seq<int> {
    Seq::new(g.len(), |k: int| g[k][j])
}

/// Fixed-point dot product of the first `k` entries: the running sum of the
/// truncated products.
pub open spec fn dot_trunc(a: Seq<int>, b: Seq<int>, k: nat) -> int
    decreases k,
{
    if k == 0 {
        0
    } else {
        dot_trunc(a, b, (k - 1) as nat) + tdiv(a[k - 1] * b[k - 1], SCALE as int)
    }
}

/// Same shape and every pair of cells within the tolerance.
pub open spec fn grids_close(a: Seq<Seq<int>>, b: Seq<Seq<int>>) -> bool {
    &&& a.len() == b.len()
    &&& forall|i: int| 0 <= i < a.len() ==> (#[trigger] a[i]).len() == b[i].len()
    &&& forall|i: int, j: int|
        0 <= i < a.len() && 0 <= j < a[i].len() ==> abs_int(#[trigger] a[i][j] - b[i][j])
            <= EPSILON_RAW
}

pub proof fn lemma_abs_mul(x: int, y: int)
    ensures
        abs_int(x * y) == abs_int(x) * abs_int(y),
{
    assert(abs_int(x * y) == abs_int(x) * abs_int(y)) by (nonlinear_arith);
}

pub proof fn lemma_tdiv_abs(p: int, d: int)
    requires
        d >= 1,
    ensures
        abs_int(tdiv(p, d)) == abs_int(p) / d,
        0 <= abs_int(p) / d <= abs_int(p),
{
    vstd::arithmetic::div_mod::lemma_div_basics_4(abs_int(p), d);
    vstd::arithmetic::div_mod::lemma_div_basics_5(abs_int(p), d);
}

pub proof fn lemma_tdiv_cap(p: int, d: int, cap: int)
    requires
        d >= 1,
        abs_int(p) <= cap,
    ensures
        abs_int(tdiv(p, d)) <= cap / d,
{
    lemma_tdiv_abs(p, d);
    vstd::arithmetic::div_mod::lemma_div_is_ordered(abs_int(p), cap, d);
}

/// A bound on each factor bounds the truncated dot product of `k` terms.
pub proof fn lemma_dot_trunc_bound(a: Seq<int>, b: Seq<int>, k: nat, la: int, lb: int)
    requires
        la >= 0,
        lb >= 0,
        k <= a.len(),
        k <= b.len(),
        forall|i: int| 0 <= i < k ==> abs_int(#[trigger] a[i]) <= la,
        forall|i: int| 0 <= i < k ==> abs_int(#[trigger] b[i]) <= lb,
    ensures
        abs_int(dot_trunc(a, b, k)) <= k * ((la * lb) / (SCALE as int)),
    decreases k,
{
    let q = (la * lb) / (SCALE as int);
    vstd::arithmetic::div_mod::lemma_div_basics_4(la * lb, SCALE as int);
    assert(la * lb >= 0) by (nonlinear_arith)
        requires
            la >= 0 && lb >= 0,
    ;
    if k == 0 {
    } else {
        lemma_dot_trunc_bound(a, b, (k - 1) as nat, la, lb);
        lemma_abs_mul(a[k - 1], b[k - 1]);
        vstd::arithmetic::mul::lemma_mul_upper_bound(abs_int(a[k - 1]), la, abs_int(b[k - 1]), lb);
        lemma_tdiv_cap(a[k - 1] * b[k - 1], SCALE as int, la * lb);
        assert((k - 1) * q + q == k * q) by (nonlinear_arith);
    }
}

impl Matrix {
    /// A cell-for-cell copy.
    pub fn duplicate(&self) -> (m: Matrix)
        ensures
            m.row_count == self.row_count,
            m.col_count == self.col_count,
            m.grid() == self.grid(),
            self.wf() ==> m.wf(),
    {
        let mut grid: Vec<Vec<Scalar>> = Vec::new();
        let n = self.cells.len();
        let mut i: usize = 0;
        while i < n
            invariant
                n == self.cells@.len(),
                i <= n,
                grid@.len() == i,
                forall|r: int| 0 <= r < i ==> (#[trigger] grid@[r])@ == self.cells@[r]@,
            decreases n - i,
        {
            let src = &self.cells[i];
            let mut row: Vec<Scalar> = Vec::new();
            let w = src.len();
            let mut j: usize = 0;
            while j < w
                invariant
                    w == src@.len(),
                    j <= w,
                    row@.len() == j,
                    forall|c: int| 0 <= c < j ==> row@[c] == src@[c],
                decreases w - j,
            {
                row.push(src[j]);
                j = j + 1;
            }
            proof {
                assert(row@ =~= src@);
            }
            grid.push(row);
            i = i + 1;
        }
        let m = Matrix { cells: grid, row_count: self.row_count, col_count: self.col_count };
        proof {
            assert(m.grid() =~~= self.grid());
        }
        m
    }

    /// Elementwise sum; the shapes must agree.
    pub fn add(&self, other: &Matrix) -> (m: Matrix)
        requires
            self.wf(),
            other.wf(),
            self.row_count == other.row_count,
            self.col_count == other.col_count,
            forall|i: int, j: int|
                0 <= i < self.row_count && 0 <= j < self.col_count ==> i128::MIN <= #[trigger] self
                    .at(i, j) + other.at(i, j) <= i128::MAX,
        ensures
            m.wf(),
            m.row_count == self.row_count,
            m.col_count == self.col_count,
            forall|i: int, j: int|
                0 <= i < self.row_count && 0 <= j < self.col_count ==> #[trigger] m.at(i, j)
                    == self.at(i, j) + other.at(i, j),
    {
        let mut new_matrix = Matrix::new(self.row_count, self.col_count);
        let mut row_index: usize = 0;
        while row_index < self.row_count
            invariant
                self.wf(),
                other.wf(),
                self.row_count == other.row_count,
                self.col_count == other.col_count,
                forall|i: int, j: int|
                    0 <= i < self.row_count && 0 <= j < self.col_count ==> i128::MIN
                        <= #[trigger] self.at(i, j) + other.at(i, j) <= i128::MAX,
                new_matrix.wf(),
                new_matrix.row_count == self.row_count,
                new_matrix.col_count == self.col_count,
                row_index <= self.row_count,
                forall|i: int, j: int|
                    0 <= i < row_index && 0 <= j < self.col_count ==> #[trigger] new_matrix.at(i, j)
                        == self.at(i, j) + other.at(i, j),
            decreases self.row_count - row_index,
        {
            let mut col_index: usize = 0;
            while col_index < self.col_count
                invariant
                    self.wf(),
                    other.wf(),
                    self.row_count == other.row_count,
                    self.col_count == other.col_count,
                    forall|i: int, j: int|
                        0 <= i < self.row_count && 0 <= j < self.col_count ==> i128::MIN
                            <= #[trigger] self.at(i, j) + other.at(i, j) <= i128::MAX,
                    new_matrix.wf(),
                    new_matrix.row_count == self.row_count,
                    new_matrix.col_count == self.col_count,
                    row_index < self.row_count,
                    col_index <= self.col_count,
                    forall|i: int, j: int|
                        0 <= i < row_index && 0 <= j < self.col_count ==> #[trigger] new_matrix.at(
                            i,
                            j,
                        ) == self.at(i, j) + other.at(i, j),
                    forall|j: int|
                        0 <= j < col_index ==> #[trigger] new_matrix.at(row_index as int, j)
                            == self.at(row_index as int, j) + other.at(row_index as int, j),
                decreases self.col_count - col_index,
            {
                let v = self.get_cell(row_index, col_index).add(
                    other.get_cell(row_index, col_index),
                );
                new_matrix.write_cell(row_index, col_index, v);
                col_index = col_index + 1;
            }
            row_index = row_index + 1;
        }
        new_matrix
    }

    /// Elementwise difference; the shapes must agree.
    pub fn sub(&self, other: &Matrix) -> (m: Matrix)
        requires
            self.wf(),
            other.wf(),
            self.row_count == other.row_count,
            self.col_count == other.col_count,
            forall|i: int, j: int|
                0 <= i < self.row_count && 0 <= j < self.col_count ==> i128::MIN <= #[trigger] self
                    .at(i, j) - other.at(i, j) <= i128::MAX,
        ensures
            m.wf(),
            m.row_count == self.row_count,
            m.col_count == self.col_count,
            forall|i: int, j: int|
                0 <= i < self.row_count && 0 <= j < self.col_count ==> #[trigger] m.at(i, j)
                    == self.at(i, j) - other.at(i, j),
    {
        let mut new_matrix = Matrix::new(self.row_count, self.col_count);
        let mut row_index: usize = 0;
        while row_index < self.row_count
            invariant
                self.wf(),
                other.wf(),
                self.row_count == other.row_count,
                self.col_count == other.col_count,
                forall|i: int, j: int|
                    0 <= i < self.row_count && 0 <= j < self.col_count ==> i128::MIN
                        <= #[trigger] self.at(i, j) - other.at(i, j) <= i128::MAX,
                new_matrix.wf(),
                new_matrix.row_count == self.row_count,
                new_matrix.col_count == self.col_count,
                row_index <= self.row_count,
                forall|i: int, j: int|
                    0 <= i < row_index && 0 <= j < self.col_count ==> #[trigger] new_matrix.at(i, j)
                        == self.at(i, j) - other.at(i, j),
            decreases self.row_count - row_index,
        {
            let mut col_index: usize = 0;
            while col_index < self.col_count
                invariant
                    self.wf(),
                    other.wf(),
                    self.row_count == other.row_count,
                    self.col_count == other.col_count,
                    forall|i: int, j: int|
                        0 <= i < self.row_count && 0 <= j < self.col_count ==> i128::MIN
                            <= #[trigger] self.at(i, j) - other.at(i, j) <= i128::MAX,
                    new_matrix.wf(),
                    new_matrix.row_count == self.row_count,
                    new_matrix.col_count == self.col_count,
                    row_index < self.row_count,
                    col_index <= self.col_count,
                    forall|i: int, j: int|
                        0 <= i < row_index && 0 <= j < self.col_count ==> #[trigger] new_matrix.at(
                            i,
                            j,
                        ) == self.at(i, j) - other.at(i, j),
                    forall|j: int|
                        0 <= j < col_index ==> #[trigger] new_matrix.at(row_index as int, j)
                            == self.at(row_index as int, j) - other.at(row_index as int, j),
                decreases self.col_count - col_index,
            {
                let v = self.get_cell(row_index, col_index).sub(
                    other.get_cell(row_index, col_index),
                );
                new_matrix.write_cell(row_index, col_index, v);
                col_index = col_index + 1;
            }
            row_index = row_index + 1;
        }
        new_matrix
    }

    /// Row-by-column product: cell `(i, j)` is the truncated dot product of
    /// row `i` of `self` with column `j` of `other`.
    pub fn mul(&self, other: &Matrix) -> (m: Matrix)
        requires
            self.wf(),
            other.wf(),
            self.col_count == other.row_count,
            self.col_count <= MUL_DIM_LIMIT,
            cells_within(self.grid(), CELL_LIMIT as int),
            cells_within(other.grid(), CELL_LIMIT as int),
        ensures
            m.wf(),
            m.row_count == self.row_count,
            m.col_count == other.col_count,
            forall|i: int, j: int|
                0 <= i < self.row_count && 0 <= j < other.col_count ==> #[trigger] m.at(i, j)
                    == dot_trunc(
                    self.grid()[i],
                    col_seq(other.grid(), j),
                    self.col_count as nat,
                ),
    {
        let mut new_matrix = Matrix::new(self.row_count, other.col_count);
        let mut row_index: usize = 0;
        while row_index < self.row_count
            invariant
                self.wf(),
                other.wf(),
                self.col_count == other.row_count,
                self.col_count <= MUL_DIM_LIMIT,
                cells_within(self.grid(), CELL_LIMIT as int),
                cells_within(other.grid(), CELL_LIMIT as int),
                new_matrix.wf(),
                new_matrix.row_count == self.row_count,
                new_matrix.col_count == other.col_count,
                row_index <= self.row_count,
                forall|i: int, j: int|
                    0 <= i < row_index && 0 <= j < other.col_count ==> #[trigger] new_matrix.at(
                        i,
                        j,
                    ) == dot_trunc(self.grid()[i], col_seq(other.grid(), j), self.col_count as nat),
            decreases self.row_count - row_index,
        {
            let mut col_index: usize = 0;
            while col_index < other.col_count
                invariant
                    self.wf(),
                    other.wf(),
                    self.col_count == other.row_count,
                    self.col_count <= MUL_DIM_LIMIT,
                    cells_within(self.grid(), CELL_LIMIT as int),
                    cells_within(other.grid(), CELL_LIMIT as int),
                    new_matrix.wf(),
                    new_matrix.row_count == self.row_count,
                    new_matrix.col_count == other.col_count,
                    row_index < self.row_count,
                    col_index <= other.col_count,
                    forall|i: int, j: int|
                        0 <= i < row_index && 0 <= j < other.col_count ==> #[trigger] new_matrix.at(
                            i,
                            j,
                        ) == dot_trunc(
                            self.grid()[i],
                            col_seq(other.grid(), j),
                            self.col_count as nat,
                        ),
                    forall|j: int|
                        0 <= j < col_index ==> #[trigger] new_matrix.at(row_index as int, j)
                            == dot_trunc(
                            self.grid()[row_index as int],
                            col_seq(other.grid(), j),
                            self.col_count as nat,
                        ),
                decreases other.col_count - col_index,
            {
                let row = self.get_row(row_index);
                let col = other.get_col(col_index);
                let ghost ra = self.grid()[row_index as int];
                let ghost ca = col_seq(other.grid(), col_index as int);
                proof {
                    assert(forall|t: int| 0 <= t < self.col_count ==> ra[t] == self.at(
                        row_index as int,
                        t,
                    ));
                    assert(forall|t: int| 0 <= t < self.col_count ==> ca[t] == other.at(
                        t,
                        col_index as int,
                    ));
                }
                let mut new_value = Scalar { raw: 0 };
                let mut i: usize = 0;
                while i < row.len()
                    invariant
                        self.wf(),
                        other.wf(),
                        self.col_count == other.row_count,
                        self.col_count <= MUL_DIM_LIMIT,
                        cells_within(self.grid(), CELL_LIMIT as int),
                        cells_within(other.grid(), CELL_LIMIT as int),
                        row_index < self.row_count,
                        col_index < other.col_count,
                        row@.len() == self.col_count,
                        col@.len() == other.row_count,
                        forall|t: int| 0 <= t < self.col_count ==> (#[trigger] row@[t]).raw
                            == ra[t],
                        forall|t: int| 0 <= t < self.col_count ==> (#[trigger] col@[t]).raw
                            == ca[t],
                        ra == self.grid()[row_index as int],
                        ca == col_seq(other.grid(), col_index as int),
                        i <= self.col_count,
                        new_value.raw == dot_trunc(ra, ca, i as nat),
                        abs_int(new_value.raw as int) <= i * (
                        (CELL_LIMIT as int * CELL_LIMIT as int) / (SCALE as int)),
                    decreases row@.len() - i,
                {
                    proof {
                        let l = CELL_LIMIT as int;
                        let q = (l * l) / (SCALE as int);
                        assert(abs_int(ra[i as int]) <= l);
                        assert(abs_int(ca[i as int]) <= l);
                        lemma_abs_mul(ra[i as int], ca[i as int]);
                        vstd::arithmetic::mul::lemma_mul_upper_bound(
                            abs_int(ra[i as int]),
                            l,
                            abs_int(ca[i as int]),
                            l,
                        );
                        lemma_tdiv_cap(ra[i as int] * ca[i as int], SCALE as int, l * l);
                        vstd::arithmetic::div_mod::lemma_div_basics_4(l * l, SCALE as int);
                        vstd::arithmetic::mul::lemma_mul_inequality(
                            i as int,
                            MUL_DIM_LIMIT as int,
                            q,
                        );
                        assert(i * q + q == (i + 1) * q) by (nonlinear_arith);
                        vstd::arithmetic::mul::lemma_mul_inequality(
                            i as int + 1,
                            MUL_DIM_LIMIT as int,
                            q,
                        );
                    }
                    let term = row[i].mul(col[i]);
                    new_value = new_value.add(term);
                    i = i + 1;
                }
                new_matrix.write_cell(row_index, col_index, new_value);
                col_index = col_index + 1;
            }
            row_index = row_index + 1;
        }
        new_matrix
    }

    /// Every cell multiplied by one scalar.
    pub fn scalar_mul(&self, scalar: Scalar) -> (m: Matrix)
        requires
            self.wf(),
            forall|i: int, j: int|
                0 <= i < self.row_count && 0 <= j < self.col_count ==> -i128::MAX
                    <= #[trigger] self.at(i, j) * scalar.raw <= i128::MAX,
        ensures
            m.wf(),
            m.row_count == self.row_count,
            m.col_count == self.col_count,
            forall|i: int, j: int|
                0 <= i < self.row_count && 0 <= j < self.col_count ==> #[trigger] m.at(i, j)
                    == tdiv(self.at(i, j) * scalar.raw, SCALE as int),
    {
        let mut new_matrix = Matrix::new(self.row_count, self.col_count);
        let mut row_index: usize = 0;
        while row_index < self.row_count
            invariant
                self.wf(),
                forall|i: int, j: int|
                    0 <= i < self.row_count && 0 <= j < self.col_count ==> -i128::MAX
                        <= #[trigger] self.at(i, j) * scalar.raw <= i128::MAX,
                new_matrix.wf(),
                new_matrix.row_count == self.row_count,
                new_matrix.col_count == self.col_count,
                row_index <= self.row_count,
                forall|i: int, j: int|
                    0 <= i < row_index && 0 <= j < self.col_count ==> #[trigger] new_matrix.at(i, j)
                        == tdiv(self.at(i, j) * scalar.raw, SCALE as int),
            decreases self.row_count - row_index,
        {
            let mut col_index: usize = 0;
            while col_index < self.col_count
                invariant
                    self.wf(),
                    forall|i: int, j: int|
                        0 <= i < self.row_count && 0 <= j < self.col_count ==> -i128::MAX
                            <= #[trigger] self.at(i, j) * scalar.raw <= i128::MAX,
                    new_matrix.wf(),
                    new_matrix.row_count == self.row_count,
                    new_matrix.col_count == self.col_count,
                    row_index < self.row_count,
                    col_index <= self.col_count,
                    forall|i: int, j: int|
                        0 <= i < row_index && 0 <= j < self.col_count ==> #[trigger] new_matrix.at(
                            i,
                            j,
                        ) == tdiv(self.at(i, j) * scalar.raw, SCALE as int),
                    forall|j: int|
                        0 <= j < col_index ==> #[trigger] new_matrix.at(row_index as int, j)
                            == tdiv(self.at(row_index as int, j) * scalar.raw, SCALE as int),
                decreases self.col_count - col_index,
            {
                let v = self.get_cell(row_index, col_index).mul(scalar);
                new_matrix.write_cell(row_index, col_index, v);
                col_index = col_index + 1;
            }
            row_index = row_index + 1;
        }
        new_matrix
    }
}

/// The grid with row `r` and column `c` removed.
pub open spec fn sub_grid(m: Seq<Seq<int>>, r: int, c: int) -> Seq<Seq<int>> {
    Seq::new(
        (m.len() - 1) as nat,
        |i: int|
            {
                let row = if i < r {
                    m[i]
                } else {
                    m[i + 1]
                };
                Seq::new(
                    (row.len() - 1) as nat,
                    |j: int|
                        if j < c {
                            row[j]
                        } else {
                            row[j + 1]
                        },
                )
            },
    )
}

/// The cofactor sign: plus on even positions, minus on odd ones.
pub open spec fn sgn(j: int) -> int {
    if j % 2 == 0 {
        1
    } else {
        -1
    }
}

/// Laplace expansion along the first row, on the fixed-point grid: the sum of
/// the first `c` signed, truncated terms.
pub open spec fn det_sum(m: Seq<Seq<int>>, c: nat) -> int
    decreases m.len(), c,
{
    if c == 0 || m.len() == 0 {
        0
    } else {
        det_sum(m, (c - 1) as nat) + tdiv(
            sgn(c - 1) * m[0][c - 1] * spec_det(sub_grid(m, 0, c - 1)),
            SCALE as int,
        )
    }
}

/// The determinant as the code computes it: the direct product formula for a
/// 2 by 2 grid, and cofactor expansion along the first row otherwise (an
/// empty or single-cell grid expands to zero).
pub open spec fn spec_det(m: Seq<Seq<int>>) -> int
    decreases m.len(), m.len() + 1,
{
    if m.len() == 2 {
        tdiv(m[0][0] * m[1][1], SCALE as int) - tdiv(m[0][1] * m[1][0], SCALE as int)
    } else {
        det_sum(m, m.len())
    }
}

/// The signed minor at `(r, c)`.
pub open spec fn spec_cofactor(m: Seq<Seq<int>>, r: int, c: int) -> int {
    sgn(r + c) * spec_det(sub_grid(m, r, c))
}

/// Cell `(i, j)` of the inverse: the transposed cofactor divided by the
/// determinant.
pub open spec fn spec_inverse_cell(m: Seq<Seq<int>>, i: int, j: int) -> int {
    tdiv(spec_cofactor(m, j, i) * (SCALE as int), spec_det(m))
}

/// A magnitude bound for determinants of grids whose cells stay within `b`.
pub open spec fn det_bound(n: nat, b: int) -> int
    decreases n,
{
    if n < 2 {
        0
    } else if n == 2 {
        2 * ((b * b) / (SCALE as int))
    } else {
        n * ((b * det_bound((n - 1) as nat, b)) / (SCALE as int))
    }
}

/// The truncated dot product of four entries, written out.
pub proof fn lemma_dot_trunc_4(a: Seq<int>, b: Seq<int>)
    ensures
        dot_trunc(a, b, 4) == tdiv(a[0] * b[0], SCALE as int) + tdiv(a[1] * b[1], SCALE as int)
            + tdiv(a[2] * b[2], SCALE as int) + tdiv(a[3] * b[3], SCALE as int),
{
    reveal_with_fuel(dot_trunc, 6);
    assert(dot_trunc(a, b, 1) == tdiv(a[0] * b[0], SCALE as int));
    assert(dot_trunc(a, b, 2) == dot_trunc(a, b, 1) + tdiv(a[1] * b[1], SCALE as int));
    assert(dot_trunc(a, b, 3) == dot_trunc(a, b, 2) + tdiv(a[2] * b[2], SCALE as int));
    assert(dot_trunc(a, b, 4) == dot_trunc(a, b, 3) + tdiv(a[3] * b[3], SCALE as int));
}

/// Dotting with a column that is a single grid-unit at position `k` picks
/// out entry `k` of the row, exactly.
pub proof fn lemma_dot_trunc_unit(a: Seq<int>, b: Seq<int>, k: int)
    requires
        0 <= k < 4,
        forall|i: int| 0 <= i < 4 && i != k ==> b[i] == 0,
        b[k] == SCALE as int,
    ensures
        dot_trunc(a, b, 4) == a[k],
{
    lemma_dot_trunc_4(a, b);
    lemma_sign_mul_exact(SCALE as int, a[k]);
    lemma_sign_mul_exact(SCALE as int, 0);
    assert(a[k] * b[k] == (SCALE as int) * a[k]) by (nonlinear_arith)
        requires
            b[k] == SCALE as int,
    ;
    assert forall|i: int| 0 <= i < 4 && i != k implies a[i] * b[i] == 0 by {
        assert(a[i] * b[i] == 0) by (nonlinear_arith)
            requires
                b[i] == 0,
        ;
    }
    assert(tdiv(0int, SCALE as int) == 0);
}

/// Both factors bounded makes the product fit the machine word.
pub proof fn lemma_mul_fits(x: int, y: int, bx: int, by: int)
    requires
        abs_int(x) <= bx,
        abs_int(y) <= by,
        bx * by <= i128::MAX,
    ensures
        -i128::MAX <= x * y <= i128::MAX,
        abs_int(x * y) <= bx * by,
{
    lemma_abs_mul(x, y);
    vstd::arithmetic::mul::lemma_mul_upper_bound(abs_int(x), bx, abs_int(y), by);
}

pub proof fn lemma_tdiv_le_abs(p: int, d: int)
    requires
        d != 0,
    ensures
        abs_int(tdiv(p, d)) <= abs_int(p),
{
    vstd::arithmetic::div_mod::lemma_div_basics_4(abs_int(p), abs_int(d));
    vstd::arithmetic::div_mod::lemma_div_basics_5(abs_int(p), abs_int(d));
}

proof fn lemma_sgn_mul_abs(j: int, x: int)
    ensures
        abs_int(sgn(j) * x) == abs_int(x),
{
    assert(abs_int(sgn(j) * x) == abs_int(x)) by (nonlinear_arith)
        requires
            sgn(j) == 1 || sgn(j) == -1,
    ;
}

proof fn lemma_det_bound_nonneg(n: nat, b: int)
    requires
        b >= 0,
    ensures
        det_bound(n, b) >= 0,
    decreases n,
{
    if n < 2 {
    } else if n == 2 {
        assert(b * b >= 0) by (nonlinear_arith);
        vstd::arithmetic::div_mod::lemma_div_basics_4(b * b, SCALE as int);
    } else {
        lemma_det_bound_nonneg((n - 1) as nat, b);
        let inner = det_bound((n - 1) as nat, b);
        assert(b * inner >= 0) by (nonlinear_arith)
            requires
                b >= 0 && inner >= 0,
        ;
        vstd::arithmetic::div_mod::lemma_div_basics_4(b * inner, SCALE as int);
        assert(n * ((b * inner) / (SCALE as int)) >= 0) by (nonlinear_arith)
            requires
                n >= 3 && (b * inner) / (SCALE as int) >= 0,
        ;
    }
}

/// The determinant bounds at the shapes and limits the code admits.
proof fn lemma_det_bound_concrete()
    ensures
        det_bound(0, DET_CELL_LIMIT as int) == 0,
        det_bound(1, DET_CELL_LIMIT as int) == 0,
        det_bound(2, DET_CELL_LIMIT as int) == 2_000_000_000_000_000_000,
        det_bound(3, DET_CELL_LIMIT as int) == 600_000_000_000_000_000_000_000,
        det_bound(4, DET_CELL_LIMIT as int) == 240_000_000_000_000_000_000_000_000_000,
        det_bound(0, INV_CELL_LIMIT as int) == 0,
        det_bound(1, INV_CELL_LIMIT as int) == 0,
        det_bound(2, INV_CELL_LIMIT as int) == 200_000_000_000_000,
        det_bound(3, INV_CELL_LIMIT as int) == 600_000_000_000_000_000,
        det_bound(4, INV_CELL_LIMIT as int) == 2_400_000_000_000_000_000_000,
{
    reveal_with_fuel(det_bound, 5);
}

/// Cells of a minor are cells of the original grid.
proof fn lemma_sub_grid_shape(m: Seq<Seq<int>>, n: int, r: int, c: int, b: int)
    requires
        square_grid(m, n),
        cells_within(m, b),
        n >= 1,
        0 <= r < n,
        0 <= c < n,
    ensures
        square_grid(sub_grid(m, r, c), n - 1),
        cells_within(sub_grid(m, r, c), b),
{
    let s = sub_grid(m, r, c);
    assert forall|i: int| 0 <= i < s.len() implies (#[trigger] s[i]).len() == n - 1 by {
        if i < r {
            assert(m[i].len() == n);
        } else {
            assert(m[i + 1].len() == n);
        }
    }
    assert forall|i: int, j: int| 0 <= i < s.len() && 0 <= j < s[i].len() implies -b
        <= #[trigger] s[i][j] <= b by {
        let si = if i < r {
            i
        } else {
            i + 1
        };
        let sj = if j < c {
            j
        } else {
            j + 1
        };
        assert(s[i][j] == m[si][sj]);
        assert(-b <= m[si][sj] <= b);
    }
}

proof fn lemma_det_sum_bound(m: Seq<Seq<int>>, n: nat, b: int, c: nat)
    requires
        square_grid(m, n as int),
        cells_within(m, b),
        b >= 0,
        n >= 1,
        c <= n,
    ensures
        abs_int(det_sum(m, c)) <= c * ((b * det_bound((n - 1) as nat, b)) / (SCALE as int)),
    decreases n, c,
{
    let inner = det_bound((n - 1) as nat, b);
    lemma_det_bound_nonneg((n - 1) as nat, b);
    assert(b * inner >= 0) by (nonlinear_arith)
        requires
            b >= 0 && inner >= 0,
    ;
    let q = (b * inner) / (SCALE as int);
    vstd::arithmetic::div_mod::lemma_div_basics_4(b * inner, SCALE as int);
    if c == 0 {
    } else {
        lemma_det_sum_bound(m, n, b, (c - 1) as nat);
        let j = c - 1;
        lemma_sub_grid_shape(m, n as int, 0, j, b);
        lemma_spec_det_bound(sub_grid(m, 0, j), (n - 1) as nat, b);
        lemma_sgn_mul_abs(j, m[0][j] * spec_det(sub_grid(m, 0, j)));
        lemma_abs_mul(m[0][j], spec_det(sub_grid(m, 0, j)));
        vstd::arithmetic::mul::lemma_mul_upper_bound(
            abs_int(m[0][j]),
            b,
            abs_int(spec_det(sub_grid(m, 0, j))),
            inner,
        );
        assert(sgn(j) * (m[0][j] * spec_det(sub_grid(m, 0, j))) == sgn(j) * m[0][j] * spec_det(
            sub_grid(m, 0, j),
        )) by (nonlinear_arith);
        lemma_tdiv_cap(sgn(j) * m[0][j] * spec_det(sub_grid(m, 0, j)), SCALE as int, b * inner);
        assert((c - 1) * q + q == c * q) by (nonlinear_arith);
    }
}

/// Cells within `b` keep the determinant within `det_bound`.
pub proof fn lemma_spec_det_bound(m: Seq<Seq<int>>, n: nat, b: int)
    requires
        square_grid(m, n as int),
        cells_within(m, b),
        b >= 0,
    ensures
        abs_int(spec_det(m)) <= det_bound(n, b),
    decreases n, n + 1,
{
    if n == 2 {
        lemma_abs_mul(m[0][0], m[1][1]);
        lemma_abs_mul(m[0][1], m[1][0]);
        vstd::arithmetic::mul::lemma_mul_upper_bound(abs_int(m[0][0]), b, abs_int(m[1][1]), b);
        vstd::arithmetic::mul::lemma_mul_upper_bound(abs_int(m[0][1]), b, abs_int(m[1][0]), b);
        lemma_tdiv_cap(m[0][0] * m[1][1], SCALE as int, b * b);
        lemma_tdiv_cap(m[0][1] * m[1][0], SCALE as int, b * b);
    } else if n < 2 {
        assert(spec_det(m) == det_sum(m, n));
        if n == 1 {
            lemma_det_sum_bound(m, n, b, n);
            lemma_det_bound_nonneg(0, b);
            let q = (b * det_bound(0, b)) / (SCALE as int);
            vstd::arithmetic::div_mod::lemma_div_basics_4(b * det_bound(0, b), SCALE as int);
            assert(b * 0 == 0) by (nonlinear_arith);
            vstd::arithmetic::div_mod::lemma_div_basics(SCALE as int);
            assert(1 * q == q) by (nonlinear_arith);
        }
    } else {
        lemma_det_sum_bound(m, n, b, n);
        assert(n * ((b * det_bound((n - 1) as nat, b)) / (SCALE as int)) == det_bound(n, b));
    }
}

/// Multiplying by plus or minus one on the grid is exact.
pub proof fn lemma_sign_mul_exact(s: int, x: int)
    requires
        s == SCALE as int || s == -(SCALE as int),
    ensures
        tdiv(s * x, SCALE as int) == if s == SCALE as int {
            x
        } else {
            -x
        },
{
    let sc = SCALE as int;
    assert(abs_int(s * x) == sc * abs_int(x)) by (nonlinear_arith)
        requires
            (s == sc || s == -sc) && sc > 0,
    ;
    vstd::arithmetic::div_mod::lemma_div_multiples_vanish(abs_int(x), sc);
    assert((sc * abs_int(x)) / sc == abs_int(x));
    assert((s * x < 0) == if s == sc {
        x < 0
    } else {
        x > 0
    }) by (nonlinear_arith)
        requires
            (s == sc || s == -sc) && sc > 0,
    ;
}

impl Matrix {
    /// The matrix with one row and one column struck out.
    pub fn sub_matrix(&self, row_index: usize, col_index: usize) -> (m: Matrix)
        requires
            self.wf(),
            row_index < self.row_count,
            col_index < self.col_count,
        ensures
            m.wf(),
            m.row_count == self.row_count - 1,
            m.col_count == self.col_count - 1,
            m.grid() == sub_grid(self.grid(), row_index as int, col_index as int),
    {
        let rows = self.row_count - 1;
        let cols = self.col_count - 1;
        let mut new_matrix = Matrix::new(rows, cols);
        let mut i: usize = 0;
        while i < rows
            invariant
                self.wf(),
                row_index < self.row_count,
                col_index < self.col_count,
                rows == self.row_count - 1,
                cols == self.col_count - 1,
                new_matrix.wf(),
                new_matrix.row_count == rows,
                new_matrix.col_count == cols,
                i <= rows,
                forall|r: int, c: int|
                    0 <= r < i && 0 <= c < cols ==> #[trigger] new_matrix.at(r, c) == self.at(
                        if r < row_index {
                            r
                        } else {
                            r + 1
                        },
                        if c < col_index {
                            c
                        } else {
                            c + 1
                        },
                    ),
            decreases rows - i,
        {
            let src_r = if i < row_index {
                i
            } else {
                i + 1
            };
            let mut j: usize = 0;
            while j < cols
                invariant
                    self.wf(),
                    row_index < self.row_count,
                    col_index < self.col_count,
                    rows == self.row_count - 1,
                    cols == self.col_count - 1,
                    new_matrix.wf(),
                    new_matrix.row_count == rows,
                    new_matrix.col_count == cols,
                    i < rows,
                    j <= cols,
                    src_r == if i < row_index {
                        i as int
                    } else {
                        i + 1
                    },
                    forall|r: int, c: int|
                        0 <= r < i && 0 <= c < cols ==> #[trigger] new_matrix.at(r, c) == self.at(
                            if r < row_index {
                                r
                            } else {
                                r + 1
                            },
                            if c < col_index {
                                c
                            } else {
                                c + 1
                            },
                        ),
                    forall|c: int|
                        0 <= c < j ==> #[trigger] new_matrix.at(i as int, c) == self.at(
                            src_r as int,
                            if c < col_index {
                                c
                            } else {
                                c + 1
                            },
                        ),
                decreases cols - j,
            {
                let src_c = if j < col_index {
                    j
                } else {
                    j + 1
                };
                let v = self.get_cell(src_r, src_c);
                new_matrix.write_cell(i, j, v);
                j = j + 1;
            }
            i = i + 1;
        }
        proof {
            let g = self.grid();
            let s = sub_grid(g, row_index as int, col_index as int);
            assert forall|r: int| 0 <= r < rows implies #[trigger] new_matrix.grid()[r] == s[r] by {
                if r < row_index {
                    assert(g[r].len() == self.col_count);
                } else {
                    assert(g[r + 1].len() == self.col_count);
                }
                assert forall|c: int| 0 <= c < cols implies new_matrix.grid()[r][c] == s[r][c] by {
                    assert(new_matrix.at(r, c) == self.at(
                        if r < row_index {
                            r
                        } else {
                            r + 1
                        },
                        if c < col_index {
                            c
                        } else {
                            c + 1
                        },
                    ));
                }
                assert(new_matrix.grid()[r] =~= s[r]);
            }
            assert(new_matrix.grid() =~= s);
        }
        new_matrix
    }

    /// Cofactor-expansion determinant; the matrix must be square and at most
    /// 4 by 4, with cells within `DET_CELL_LIMIT`.
    pub fn determinant(&self) -> (d: Scalar)
        requires
            self.wf(),
            self.row_count == self.col_count,
            self.row_count <= 4,
            cells_within(self.grid(), DET_CELL_LIMIT as int),
        ensures
            d.raw == spec_det(self.grid()),
        decreases self.row_count,
    {
        let ghost g = self.grid();
        let ghost bl = DET_CELL_LIMIT as int;
        let n = self.row_count;
        if n == 2 {
            proof {
                lemma_mul_fits(g[0][0], g[1][1], bl, bl);
                lemma_mul_fits(g[0][1], g[1][0], bl, bl);
                lemma_tdiv_cap(g[0][0] * g[1][1], SCALE as int, bl * bl);
                lemma_tdiv_cap(g[0][1] * g[1][0], SCALE as int, bl * bl);
            }
            let a = self.get_cell(0, 0).mul(self.get_cell(1, 1));
            let b = self.get_cell(0, 1).mul(self.get_cell(1, 0));
            return a.sub(b);
        }
        if n == 0 {
            return Scalar { raw: 0 };
        }
        proof {
            lemma_det_bound_nonneg((n - 1) as nat, bl);
            lemma_det_bound_concrete();
            assert(det_bound((n - 1) as nat, bl) <= 600_000_000_000_000_000_000_000 as int);
        }
        let ghost inner = det_bound((n - 1) as nat, bl);
        let ghost q = (bl * inner) / (SCALE as int);
        proof {
            assert(bl * inner >= 0 && bl * inner <= i128::MAX) by (nonlinear_arith)
                requires
                    bl == 10_000_000_000_000 as int && 0 <= inner
                        <= 600_000_000_000_000_000_000_000 as int,
            ;
            vstd::arithmetic::div_mod::lemma_div_basics_4(bl * inner, SCALE as int);
            lemma_tdiv_abs(bl * inner, SCALE as int);
        }
        let mut det = Scalar { raw: 0 };
        let mut c_i: usize = 0;
        while c_i < n
            invariant
                self.wf(),
                self.row_count == self.col_count,
                self.row_count <= 4,
                self.row_count != 2,
                self.row_count >= 1,
                cells_within(self.grid(), DET_CELL_LIMIT as int),
                g == self.grid(),
                bl == DET_CELL_LIMIT as int,
                n == self.row_count,
                c_i <= n,
                inner == det_bound((n - 1) as nat, bl),
                0 <= inner <= 600_000_000_000_000_000_000_000 as int,
                q == (bl * inner) / (SCALE as int),
                0 <= q,
                det.raw == det_sum(g, c_i as nat),
                abs_int(det.raw as int) <= c_i * q,
            decreases n - c_i,
        {
            let sign = if c_i % 2 == 0 {
                Scalar { raw: SCALE }
            } else {
                Scalar { raw: -SCALE }
            };
            let sub = self.sub_matrix(0, c_i);
            proof {
                lemma_sub_grid_shape(g, n as int, 0, c_i as int, bl);
            }
            let md = sub.determinant();
            proof {
                lemma_spec_det_bound(sub.grid(), (n - 1) as nat, bl);
                lemma_mul_fits(sign.raw as int, g[0][c_i as int], SCALE as int, bl);
                lemma_sign_mul_exact(sign.raw as int, g[0][c_i as int]);
            }
            let sc = sign.mul(self.get_cell(0, c_i));
            proof {
                lemma_mul_fits(sc.raw as int, md.raw as int, bl, inner);
                lemma_tdiv_cap(sc.raw * md.raw, SCALE as int, bl * inner);
                assert(sc.raw * md.raw == sgn(c_i as int) * g[0][c_i as int] * spec_det(
                    sub_grid(g, 0, c_i as int),
                )) by (nonlinear_arith)
                    requires
                        sc.raw == sgn(c_i as int) * g[0][c_i as int] && md.raw == spec_det(
                            sub_grid(g, 0, c_i as int),
                        ),
                ;
                vstd::arithmetic::mul::lemma_mul_inequality(c_i as int, 4, q);
                vstd::arithmetic::mul::lemma_mul_inequality(c_i + 1, 4, q);
                assert(c_i * q + q == (c_i + 1) * q) by (nonlinear_arith);
            }
            let term = sc.mul(md);
            det = det.add(term);
            c_i = c_i + 1;
        }
        det
    }

    /// Whether the determinant is nonzero, so an inverse exists.
    pub fn has_inverse(&self) -> (r: bool)
        requires
            self.wf(),
            self.row_count == self.col_count,
            self.row_count <= 4,
            cells_within(self.grid(), DET_CELL_LIMIT as int),
        ensures
            r == (spec_det(self.grid()) != 0),
    {
        let d = self.determinant();
        d.raw != 0
    }

    /// The adjugate: cell `(c, r)` holds the cofactor at `(r, c)`.
    fn co_factors_transpose_matrix(&self) -> (m: Matrix)
        requires
            self.wf(),
            self.row_count == self.col_count,
            self.row_count <= 4,
            cells_within(self.grid(), INV_CELL_LIMIT as int),
        ensures
            m.wf(),
            m.row_count == self.row_count,
            m.col_count == self.col_count,
            forall|i: int, j: int|
                0 <= i < self.row_count && 0 <= j < self.col_count ==> #[trigger] m.at(i, j)
                    == spec_cofactor(self.grid(), j, i),
    {
        let ghost g = self.grid();
        let ghost bl = INV_CELL_LIMIT as int;
        let n = self.row_count;
        proof {
            assert(cells_within(g, DET_CELL_LIMIT as int));
        }
        let mut co_matrix = Matrix::new(n, n);
        let mut r_i: usize = 0;
        while r_i < n
            invariant
                self.wf(),
                self.row_count == self.col_count,
                self.row_count <= 4,
                cells_within(g, INV_CELL_LIMIT as int),
                cells_within(g, DET_CELL_LIMIT as int),
                g == self.grid(),
                bl == INV_CELL_LIMIT as int,
                n == self.row_count,
                co_matrix.wf(),
                co_matrix.row_count == n,
                co_matrix.col_count == n,
                r_i <= n,
                forall|i: int, j: int|
                    0 <= j < r_i && 0 <= i < n ==> #[trigger] co_matrix.at(i, j) == spec_cofactor(
                        g,
                        j,
                        i,
                    ),
            decreases n - r_i,
        {
            let mut c_i: usize = 0;
            while c_i < n
                invariant
                    self.wf(),
                    self.row_count == self.col_count,
                    self.row_count <= 4,
                    cells_within(g, INV_CELL_LIMIT as int),
                    cells_within(g, DET_CELL_LIMIT as int),
                    g == self.grid(),
                    bl == INV_CELL_LIMIT as int,
                    n == self.row_count,
                    co_matrix.wf(),
                    co_matrix.row_count == n,
                    co_matrix.col_count == n,
                    r_i < n,
                    c_i <= n,
                    forall|i: int, j: int|
                        0 <= j < r_i && 0 <= i < n ==> #[trigger] co_matrix.at(i, j)
                            == spec_cofactor(g, j, i),
                    forall|i: int|
                        0 <= i < c_i ==> #[trigger] co_matrix.at(i, r_i as int) == spec_cofactor(
                            g,
                            r_i as int,
                            i,
                        ),
                decreases n - c_i,
            {
                let sign = if (r_i + c_i) % 2 == 0 {
                    Scalar { raw: SCALE }
                } else {
                    Scalar { raw: -SCALE }
                };
                let sub = self.sub_matrix(r_i, c_i);
                proof {
                    lemma_sub_grid_shape(g, n as int, r_i as int, c_i as int, DET_CELL_LIMIT as int);
                }
                let md = sub.determinant();
                proof {
                    lemma_sub_grid_shape(g, n as int, r_i as int, c_i as int, bl);
                    lemma_spec_det_bound(sub.grid(), (n - 1) as nat, bl);
                    lemma_det_bound_concrete();
                    assert(det_bound((n - 1) as nat, bl) <= 600_000_000_000_000_000 as int);
                    lemma_mul_fits(sign.raw as int, md.raw as int, SCALE as int, abs_int(
                        md.raw as int,
                    ));
                    lemma_sign_mul_exact(sign.raw as int, md.raw as int);
                }
                let co_factor = sign.mul(md);
                proof {
                    if (r_i + c_i) % 2 == 0 {
                        assert(sgn(r_i as int + c_i as int) == 1);
                        assert(co_factor.raw == md.raw);
                    } else {
                        assert(sgn(r_i as int + c_i as int) == -1);
                        assert(co_factor.raw == -md.raw);
                    }
                    assert(co_factor.raw == spec_cofactor(g, r_i as int, c_i as int));
                }
                co_matrix.write_cell(c_i, r_i, co_factor);
                c_i = c_i + 1;
            }
            r_i = r_i + 1;
        }
        co_matrix
    }

    /// The adjugate scaled by the determinant's reciprocal; the determinant
    /// must be nonzero.
    pub fn inverse(&self) -> (m: Matrix)
        requires
            self.wf(),
            self.row_count == self.col_count,
            self.row_count <= 4,
            cells_within(self.grid(), INV_CELL_LIMIT as int),
            spec_det(self.grid()) != 0,
        ensures
            m.wf(),
            m.row_count == self.row_count,
            m.col_count == self.col_count,
            forall|i: int, j: int|
                0 <= i < self.row_count && 0 <= j < self.col_count ==> #[trigger] m.at(i, j)
                    == spec_inverse_cell(self.grid(), i, j),
    {
        let ghost g = self.grid();
        proof {
            assert(cells_within(g, DET_CELL_LIMIT as int));
            lemma_spec_det_bound(g, self.row_count as nat, DET_CELL_LIMIT as int);
            lemma_det_bound_concrete();
            lemma_det_bound_nonneg(self.row_count as nat, DET_CELL_LIMIT as int);
            assert(det_bound(self.row_count as nat, DET_CELL_LIMIT as int) < i128::MAX as int);
        }
        let det = self.determinant();
        let co = self.co_factors_transpose_matrix();
        proof {
            assert forall|i: int, j: int|
                0 <= i < co.row_count && 0 <= j < co.col_count implies -i128::MAX <= #[trigger] co
                .at(i, j) * SCALE <= i128::MAX by {
                lemma_sgn_mul_abs(j + i, spec_det(sub_grid(g, j, i)));
                lemma_sub_grid_shape(g, self.row_count as int, j, i, INV_CELL_LIMIT as int);
                lemma_spec_det_bound(
                    sub_grid(g, j, i),
                    (self.row_count - 1) as nat,
                    INV_CELL_LIMIT as int,
                );
                lemma_det_bound_concrete();
                assert(det_bound((self.row_count - 1) as nat, INV_CELL_LIMIT as int)
                    <= 600_000_000_000_000_000 as int);
                lemma_mul_fits(
                    co.at(i, j),
                    SCALE as int,
                    600_000_000_000_000_000 as int,
                    SCALE as int,
                );
            }
        }
        let mut new_matrix = Matrix::new(self.row_count, self.col_count);
        let mut row_index: usize = 0;
        while row_index < self.row_count
            invariant
                self.wf(),
                self.row_count == self.col_count,
                co.wf(),
                co.row_count == self.row_count,
                co.col_count == self.col_count,
                forall|i: int, j: int|
                    0 <= i < co.row_count && 0 <= j < co.col_count ==> -i128::MAX <= #[trigger] co
                        .at(i, j) * SCALE <= i128::MAX,
                forall|i: int, j: int|
                    0 <= i < self.row_count && 0 <= j < self.col_count ==> #[trigger] co.at(i, j)
                        == spec_cofactor(g, j, i),
                g == self.grid(),
                det.raw == spec_det(g),
                det.raw != 0,
                abs_int(det.raw as int) < i128::MAX as int,
                new_matrix.wf(),
                new_matrix.row_count == self.row_count,
                new_matrix.col_count == self.col_count,
                row_index <= self.row_count,
                forall|i: int, j: int|
                    0 <= i < row_index && 0 <= j < self.col_count ==> #[trigger] new_matrix.at(i, j)
                        == spec_inverse_cell(g, i, j),
            decreases self.row_count - row_index,
        {
            let mut col_index: usize = 0;
            while col_index < self.col_count
                invariant
                    self.wf(),
                    self.row_count == self.col_count,
                    co.wf(),
                    co.row_count == self.row_count,
                    co.col_count == self.col_count,
                    forall|i: int, j: int|
                        0 <= i < co.row_count && 0 <= j < co.col_count ==> -i128::MAX
                            <= #[trigger] co.at(i, j) * SCALE <= i128::MAX,
                    forall|i: int, j: int|
                        0 <= i < self.row_count && 0 <= j < self.col_count ==> #[trigger] co.at(
                            i,
                            j,
                        ) == spec_cofactor(g, j, i),
                    g == self.grid(),
                    det.raw == spec_det(g),
                    det.raw != 0,
                    abs_int(det.raw as int) < i128::MAX as int,
                    new_matrix.wf(),
                    new_matrix.row_count == self.row_count,
                    new_matrix.col_count == self.col_count,
                    row_index < self.row_count,
                    col_index <= self.col_count,
                    forall|i: int, j: int|
                        0 <= i < row_index && 0 <= j < self.col_count ==> #[trigger] new_matrix.at(
                            i,
                            j,
                        ) == spec_inverse_cell(g, i, j),
                    forall|j: int|
                        0 <= j < col_index ==> #[trigger] new_matrix.at(row_index as int, j)
                            == spec_inverse_cell(g, row_index as int, j),
                decreases self.col_count - col_index,
            {
                let v = co.get_cell(row_index, col_index).div(det);
                new_matrix.write_cell(row_index, col_index, v);
                col_index = col_index + 1;
            }
            row_index = row_index + 1;
        }
        new_matrix
    }
}

/// A point as the column of raw values a 4 by 1 matrix holds.
pub open spec fn point_col(p: Point) -> Seq<int> {
    seq![p.x.raw as int, p.y.raw as int, p.z.raw as int, p.w.raw as int]
}

/// A vector as the column of raw values a 4 by 1 matrix holds.
pub open spec fn vector_col(v: Vector) -> Seq<int> {
    seq![v.x.raw as int, v.y.raw as int, v.z.raw as int, v.w.raw as int]
}

impl Matrix {
    /// The point lifted to a column, multiplied through, and read back with
    /// `w` restored to one.
    pub fn mul_point(&self, p: &Point) -> (r: Point)
        requires
            self.wf(),
            self.row_count == 4,
            self.col_count == 4,
            cells_within(self.grid(), CELL_LIMIT as int),
            p.wf(),
            abs_int(p.x.raw as int) <= CELL_LIMIT as int,
            abs_int(p.y.raw as int) <= CELL_LIMIT as int,
            abs_int(p.z.raw as int) <= CELL_LIMIT as int,
        ensures
            r.x.raw == dot_trunc(self.grid()[0], point_col(*p), 4),
            r.y.raw == dot_trunc(self.grid()[1], point_col(*p), 4),
            r.z.raw == dot_trunc(self.grid()[2], point_col(*p), 4),
            r.w.raw == SCALE,
            r.wf(),
    {
        let point_matrix = p.to_matrix();
        proof {
            assert forall|i: int, j: int|
                0 <= i < point_matrix.grid().len() && 0 <= j < point_matrix.grid()[i].len()
                implies -(CELL_LIMIT as int) <= #[trigger] point_matrix.grid()[i][j] <= (
            CELL_LIMIT as int) by {
                assert(point_matrix.grid()[i][j] == point_matrix.at(i, j));
            }
        }
        let new_point_matrix = self.mul(&point_matrix);
        proof {
            assert(col_seq(point_matrix.grid(), 0) =~= point_col(*p));
        }
        Point::new(
            new_point_matrix.get_cell(0, 0),
            new_point_matrix.get_cell(1, 0),
            new_point_matrix.get_cell(2, 0),
        )
    }

    /// The vector lifted to a column, multiplied through, and read back with
    /// `w` restored to zero.
    pub fn mul_vector(&self, v: &Vector) -> (r: Vector)
        requires
            self.wf(),
            self.row_count == 4,
            self.col_count == 4,
            cells_within(self.grid(), CELL_LIMIT as int),
            v.wf(),
            abs_int(v.x.raw as int) <= CELL_LIMIT as int,
            abs_int(v.y.raw as int) <= CELL_LIMIT as int,
            abs_int(v.z.raw as int) <= CELL_LIMIT as int,
        ensures
            r.x.raw == dot_trunc(self.grid()[0], vector_col(*v), 4),
            r.y.raw == dot_trunc(self.grid()[1], vector_col(*v), 4),
            r.z.raw == dot_trunc(self.grid()[2], vector_col(*v), 4),
            r.w.raw == 0,
            r.wf(),
    {
        let vector_matrix = v.to_matrix();
        proof {
            assert forall|i: int, j: int|
                0 <= i < vector_matrix.grid().len() && 0 <= j < vector_matrix.grid()[i].len()
                implies -(CELL_LIMIT as int) <= #[trigger] vector_matrix.grid()[i][j] <= (
            CELL_LIMIT as int) by {
                assert(vector_matrix.grid()[i][j] == vector_matrix.at(i, j));
            }
        }
        let new_vector_matrix = self.mul(&vector_matrix);
        proof {
            assert(col_seq(vector_matrix.grid(), 0) =~= vector_col(*v));
        }
        Vector::new(
            new_vector_matrix.get_cell(0, 0),
            new_vector_matrix.get_cell(1, 0),
            new_vector_matrix.get_cell(2, 0),
        )
    }
}

impl Clone for Matrix {
    /// A cell-for-cell copy of the grid and its stated shape.
    fn clone(&self) -> (m: Matrix)
        ensures
            m.row_count == self.row_count,
            m.col_count == self.col_count,
            m.grid() == self.grid(),
            self.wf() ==> m.wf(),
    {
        self.duplicate()
    }
}

impl PartialEq for Matrix {
    /// Approximate equality: same shape and every cell within the tolerance.
    fn eq(&self, other: &Matrix) -> (r: bool) {
        if self.cells.len() != other.cells.len() {
            proof {
                assert(!grids_close(self.grid(), other.grid()));
            }
            return false;
        }
        let n = self.cells.len();
        let mut i: usize = 0;
        while i < n
            invariant
                n == self.cells@.len(),
                n == other.cells@.len(),
                i <= n,
                forall|r: int|
                    0 <= r < i ==> (#[trigger] self.grid()[r]).len() == other.grid()[r].len(),
                forall|r: int, c: int|
                    0 <= r < i && 0 <= c < self.grid()[r].len() ==> abs_int(
                        #[trigger] self.grid()[r][c] - other.grid()[r][c],
                    ) <= EPSILON_RAW,
            decreases n - i,
        {
            let ra = &self.cells[i];
            let rb = &other.cells[i];
            if ra.len() != rb.len() {
                proof {
                    assert(self.grid()[i as int].len() != other.grid()[i as int].len());
                    assert(!grids_close(self.grid(), other.grid()));
                }
                return false;
            }
            let w = ra.len();
            let mut j: usize = 0;
            while j < w
                invariant
                    n == self.cells@.len(),
                    n == other.cells@.len(),
                    i < n,
                    ra@ == self.cells@[i as int]@,
                    rb@ == other.cells@[i as int]@,
                    w == self.cells@[i as int]@.len(),
                    w == other.cells@[i as int]@.len(),
                    j <= w,
                    forall|r: int|
                        0 <= r < i ==> (#[trigger] self.grid()[r]).len() == other.grid()[r].len(),
                    forall|r: int, c: int|
                        0 <= r < i && 0 <= c < self.grid()[r].len() ==> abs_int(
                            #[trigger] self.grid()[r][c] - other.grid()[r][c],
                        ) <= EPSILON_RAW,
                    forall|c: int|
                        0 <= c < j ==> abs_int(
                            #[trigger] self.grid()[i as int][c] - other.grid()[i as int][c],
                        ) <= EPSILON_RAW,
                decreases w - j,
            {
                let x = ra[j];
                let y = rb[j];
                if !x.approx_eq(y) {
                    proof {
                        assert(abs_int(
                            self.grid()[i as int][j as int] - other.grid()[i as int][j as int],
                        ) > EPSILON_RAW);
                        assert(!grids_close(self.grid(), other.grid()));
                    }
                    return false;
                }
                j = j + 1;
            }
            i = i + 1;
        }
        proof {
            assert(grids_close(self.grid(), other.grid()));
        }
        true
    }
}

impl vstd::std_specs::cmp::PartialEqSpecImpl for Matrix {
    open spec fn obeys_eq_spec() -> bool {
        true
    }

    open spec fn eq_spec(&self, other: &Matrix) -> bool {
        grids_close(self.grid(), other.grid())
    }
}

} // verus!
