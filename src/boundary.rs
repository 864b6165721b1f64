//! The call surface for callers outside the language: each result is written
//! into a buffer that the caller allocated and sized. Turning raw addresses
//! into these slices and handles is left to the caller's side.
use vstd::prelude::*;
use crate::scalar::Scalar;
use crate::operator::{DenseMatrix, DenseView, LinearOperator};

verus! {

/// Copies `src` into `dst`, which has the same length.
fn copy_into<T: Copy>(dst: &mut [T], src: &Vec<T>)
    requires
        old(dst)@.len() == src@.len(),
    ensures
        final(dst)@ == src@,
{
    let n: usize = src.len();
    let mut i: usize = 0;
    while i < n
        invariant
            n == src@.len(),
            dst@.len() == n,
            i <= n,
            forall|k: int| 0 <= k < i ==> #[trigger] dst@[k] == src@[k],
        decreases n - i,
    {
        dst[i] = src[i];
        i = i + 1;
    }
    assert(dst@ =~= src@);
}

/// A new matrix behind a handle that the caller owns, holding a copy of the
/// `num_rows * num_cols` row-major entries of `data`: later changes to `data`
/// do not reach it.
pub fn dense_matrix_new<T: Scalar>(data: &[T], num_rows: usize, num_cols: usize) -> (h: Box<DenseMatrix<T>>)
    requires
        data@.len() == num_rows * num_cols,
    ensures
        h.wf(),
        h.view() == (DenseView { num_rows: num_rows as nat, num_cols: num_cols as nat, data: data@ }),
{
    Box::new(DenseMatrix::new(data, num_rows, num_cols))
}

/// Writes `dmat x` into `y`, which holds one entry per row. The matrix is
/// only read.
pub fn dense_matrix_forward<T: Scalar>(dmat: &DenseMatrix<T>, x: &[T], y: &mut [T])
    requires
        dmat.wf(),
        x@.len() == dmat.domain_dim(),
        old(y)@.len() == dmat.range_dim(),
    ensures
        final(y)@ == dmat.spec_forward(x@),
{
    let tmp = dmat.forward(x);
    copy_into(y, &tmp);
}

/// Writes `dmatᵗ y` into `x`, which holds one entry per column. The matrix
/// is only read.
pub fn dense_matrix_adjoint<T: Scalar>(dmat: &DenseMatrix<T>, y: &[T], x: &mut [T])
    requires
        dmat.wf(),
        y@.len() == dmat.range_dim(),
        old(x)@.len() == dmat.domain_dim(),
    ensures
        final(x)@ == dmat.spec_adjoint(y@),
{
    let tmp = dmat.adjoint(y);
    copy_into(x, &tmp);
}

} // verus!
