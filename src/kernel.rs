//! Row-major matrix kernels: the matrix-vector product, the transpose, and the
//! product with the transpose.
use vstd::prelude::*;
use crate::scalar::Scalar;

verus! {

/// Entry `(r, c)` of a row-major buffer with `num_cols` columns.
pub open spec fn entry<T>(mat: Seq<T>, num_cols: int, r: int, c: int) -> T {
    mat[r * num_cols + c]
}

/// Sum of the first `n` products of row `r` with `x`, taken in column order.
pub open spec fn row_acc<T: Scalar>(mat: Seq<T>, num_cols: int, x: Seq<T>, r: int, n: int) -> T
    decreases n,
{
    if n <= 0 {
        T::spec_zero()
    } else {
        T::spec_add_product(row_acc(mat, num_cols, x, r, n - 1), entry(mat, num_cols, r, n - 1), x[n - 1])
    }
}

/// Sum of the first `n` products of column `c` with `y`, taken in row order.
pub open spec fn col_acc<T: Scalar>(mat: Seq<T>, num_cols: int, y: Seq<T>, c: int, n: int) -> T
    decreases n,
{
    if n <= 0 {
        T::spec_zero()
    } else {
        T::spec_add_product(col_acc(mat, num_cols, y, c, n - 1), entry(mat, num_cols, n - 1, c), y[n - 1])
    }
}

/// Every entry of a `num_rows` by `num_cols` matrix lies inside its buffer.
pub proof fn lemma_entry_in_bounds(num_rows: int, num_cols: int, r: int, c: int)
    requires
        0 <= r < num_rows,
        0 <= c < num_cols,
    ensures
        0 <= r * num_cols + c < num_rows * num_cols,
        r * num_cols + num_cols <= num_rows * num_cols,
{
    assert(0 <= r * num_cols + c < num_rows * num_cols) by (nonlinear_arith)
        requires 0 <= r < num_rows, 0 <= c < num_cols;
    assert(r * num_cols + num_cols <= num_rows * num_cols) by (nonlinear_arith)
        requires 0 <= r < num_rows, 0 <= c < num_cols;
}

/// Row-major matrix-vector product: entry `r` of the result is the sum over
/// the columns of `mat[r][c] * x[c]`, accumulated in column order.
pub fn dot_product<T: Scalar>(num_rows: usize, num_cols: usize, mat: &[T], x: &[T]) -> (y: Vec<T>)
    requires
        mat@.len() == num_rows * num_cols,
        x@.len() == num_cols,
    ensures
        y@.len() == num_rows,
        forall|r: int| 0 <= r < num_rows ==> #[trigger] y@[r] == row_acc(mat@, num_cols as int, x@, r, num_cols as int),
{
    let total: usize = mat.len();
    let mut y: Vec<T> = Vec::with_capacity(num_rows);
    let mut offset: usize = 0;
    let mut ridx: usize = 0;
    while ridx < num_rows
        invariant
            ridx <= num_rows,
            mat@.len() == num_rows * num_cols,
            total == mat@.len(),
            x@.len() == num_cols,
            offset == ridx * num_cols,
            y@.len() == ridx,
            forall|r: int| 0 <= r < ridx ==> #[trigger] y@[r] == row_acc(mat@, num_cols as int, x@, r, num_cols as int),
        decreases num_rows - ridx,
    {
        proof {
            if num_cols > 0 {
                lemma_entry_in_bounds(num_rows as int, num_cols as int, ridx as int, 0);
            } else {
                assert(ridx * num_cols == 0) by (nonlinear_arith) requires num_cols == 0;
            }
        }
        let mut acc: T = T::zero();
        let mut cidx: usize = 0;
        while cidx < num_cols
            invariant
                cidx <= num_cols,
                ridx < num_rows,
                mat@.len() == num_rows * num_cols,
                total == mat@.len(),
                x@.len() == num_cols,
                offset == ridx * num_cols,
                offset + num_cols <= mat@.len(),
                acc == row_acc(mat@, num_cols as int, x@, ridx as int, cidx as int),
            decreases num_cols - cidx,
        {
            acc = T::add_product(acc, mat[offset + cidx], x[cidx]);
            cidx = cidx + 1;
        }
        y.push(acc);
        offset = offset + num_cols;
        ridx = ridx + 1;
        proof {
            assert(offset == ridx * num_cols) by (nonlinear_arith)
                requires offset == (ridx - 1) * num_cols + num_cols;
        }
    }
    y
}

/// The transpose of a row-major `num_rows` by `num_cols` matrix, itself row-major
/// (`num_cols` rows of `num_rows` entries).
pub fn transpose<T: Copy>(num_rows: usize, num_cols: usize, mat: &[T]) -> (t: Vec<T>)
    requires
        mat@.len() == num_rows * num_cols,
    ensures
        t@.len() == num_rows * num_cols,
        forall|c: int, r: int| 0 <= c < num_cols && 0 <= r < num_rows
            ==> #[trigger] entry(t@, num_rows as int, c, r) == entry(mat@, num_cols as int, r, c),
{
    let total: usize = mat.len();
    let mut t: Vec<T> = Vec::with_capacity(total);
    let mut cidx: usize = 0;
    while cidx < num_cols
        invariant
            cidx <= num_cols,
            mat@.len() == num_rows * num_cols,
            total == mat@.len(),
            t@.len() == cidx * num_rows,
            forall|c: int, r: int| 0 <= c < cidx && 0 <= r < num_rows
                ==> #[trigger] entry(t@, num_rows as int, c, r) == entry(mat@, num_cols as int, r, c),
        decreases num_cols - cidx,
    {
        let ghost start = t@.len();
        let mut ridx: usize = 0;
        while ridx < num_rows
            invariant
                ridx <= num_rows,
                cidx < num_cols,
                mat@.len() == num_rows * num_cols,
                total == mat@.len(),
                start == cidx * num_rows,
                t@.len() == start + ridx,
                forall|c: int, r: int| 0 <= c < cidx && 0 <= r < num_rows
                    ==> #[trigger] entry(t@, num_rows as int, c, r) == entry(mat@, num_cols as int, r, c),
                forall|r: int| 0 <= r < ridx
                    ==> #[trigger] entry(t@, num_rows as int, cidx as int, r) == entry(mat@, num_cols as int, r, cidx as int),
            decreases num_rows - ridx,
        {
            proof {
                lemma_entry_in_bounds(num_rows as int, num_cols as int, ridx as int, cidx as int);
            }
            let ghost before = t@;
            t.push(mat[cidx + ridx * num_cols]);
            proof {
                assert forall|c: int, r: int| 0 <= c < cidx && 0 <= r < num_rows
                    implies #[trigger] entry(t@, num_rows as int, c, r) == entry(mat@, num_cols as int, r, c) by {
                    lemma_entry_in_bounds(num_cols as int, num_rows as int, c, r);
                    assert(c * num_rows + r < cidx * num_rows) by (nonlinear_arith)
                        requires 0 <= c < cidx, 0 <= r < num_rows;
                    assert(entry(t@, num_rows as int, c, r) == entry(before, num_rows as int, c, r));
                }
                assert forall|r: int| 0 <= r < ridx + 1
                    implies #[trigger] entry(t@, num_rows as int, cidx as int, r) == entry(mat@, num_cols as int, r, cidx as int) by {
                    if r < ridx {
                        assert(entry(t@, num_rows as int, cidx as int, r) == entry(before, num_rows as int, cidx as int, r));
                    }
                }
            }
            ridx = ridx + 1;
        }
        cidx = cidx + 1;
        proof {
            assert(t@.len() == cidx * num_rows) by (nonlinear_arith)
                requires t@.len() == (cidx - 1) * num_rows + num_rows;
        }
    }
    proof {
        assert(t@.len() == num_rows * num_cols) by (nonlinear_arith)
            requires t@.len() == cidx * num_rows, cidx == num_cols;
    }
    t
}

} // verus!
