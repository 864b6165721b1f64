//! The linear operator capability and its dense row-major matrix instance.
use vstd::prelude::*;
use crate::scalar::Scalar;
use crate::kernel::{entry, row_acc, col_acc, dot_product, transpose};

verus! {

/// A linear map with a forward direction (domain to range) and its adjoint
/// (range back to domain).
pub trait LinearOperator<T: Scalar> {
    spec fn wf(&self) -> bool;

    /// Length of the vectors that `forward` takes and `adjoint` returns.
    spec fn domain_dim(&self) -> nat;

    /// Length of the vectors that `forward` returns and `adjoint` takes.
    spec fn range_dim(&self) -> nat;

    spec fn spec_forward(&self, x: Seq<T>) -> Seq<T>;

    spec fn spec_adjoint(&self, y: Seq<T>) -> Seq<T>;

    fn forward(&self, x: &[T]) -> (y: Vec<T>)
        requires
            self.wf(),
            x@.len() == self.domain_dim(),
        ensures
            y@ == self.spec_forward(x@),
            y@.len() == self.range_dim(),
    ;

    fn adjoint(&self, y: &[T]) -> (x: Vec<T>)
        requires
            self.wf(),
            y@.len() == self.range_dim(),
        ensures
            x@ == self.spec_adjoint(y@),
            x@.len() == self.domain_dim(),
    ;
}

/// What a dense matrix is: its dimensions and its entries in row-major order.
pub ghost struct DenseView<T> {
    pub num_rows: nat,
    pub num_cols: nat,
    pub data: Seq<T>,
}

/// A dense matrix that owns a row-major copy of its entries. It has no
/// operation that changes it after construction.
pub struct DenseMatrix<T> {
    num_rows: usize,
    num_cols: usize,
    data: Vec<T>,
}

/// The matrix-vector product `m x`, with each entry summed in column order.
pub open spec fn mat_vec<T: Scalar>(m: DenseView<T>, x: Seq<T>) -> Seq<T> {
    Seq::new(m.num_rows, |r: int| row_acc(m.data, m.num_cols as int, x, r, m.num_cols as int))
}

/// The transpose product `mᵗ y`, with each entry summed in row order.
pub open spec fn mat_t_vec<T: Scalar>(m: DenseView<T>, y: Seq<T>) -> Seq<T> {
    Seq::new(m.num_cols, |c: int| col_acc(m.data, m.num_cols as int, y, c, m.num_rows as int))
}

/// Summing row `c` of the transpose is summing column `c` of the matrix.
proof fn lemma_transpose_acc<T: Scalar>(t: Seq<T>, m: Seq<T>, num_rows: int, num_cols: int, y: Seq<T>, c: int, k: int)
    requires
        0 <= k <= num_rows,
        forall|r: int| 0 <= r < num_rows ==> #[trigger] entry(t, num_rows, c, r) == entry(m, num_cols, r, c),
    ensures
        row_acc(t, num_rows, y, c, k) == col_acc(m, num_cols, y, c, k),
    decreases k,
{
    if k > 0 {
        lemma_transpose_acc(t, m, num_rows, num_cols, y, c, k - 1);
        assert(entry(t, num_rows, c, k - 1) == entry(m, num_cols, k - 1, c));
    }
}

impl<T: Scalar> DenseMatrix<T> {
    pub closed spec fn view(&self) -> DenseView<T> {
        DenseView { num_rows: self.num_rows as nat, num_cols: self.num_cols as nat, data: self.data@ }
    }

    /// A matrix of `num_rows` rows and `num_cols` columns whose entries are a
    /// copy of `data`, read in row-major order.
    pub fn new(data: &[T], num_rows: usize, num_cols: usize) -> (m: Self)
        requires
            data@.len() == num_rows * num_cols,
        ensures
            m.wf(),
            m.view() == (DenseView { num_rows: num_rows as nat, num_cols: num_cols as nat, data: data@ }),
    {
        DenseMatrix { num_rows, num_cols, data: vstd::slice::slice_to_vec(data) }
    }

    pub fn num_rows(&self) -> (r: usize)
        ensures
            r == self.view().num_rows,
    {
        self.num_rows
    }

    pub fn num_cols(&self) -> (c: usize)
        ensures
            c == self.view().num_cols,
    {
        self.num_cols
    }
}

impl<T: Scalar> LinearOperator<T> for DenseMatrix<T> {
    open spec fn wf(&self) -> bool {
        self.view().data.len() == self.view().num_rows * self.view().num_cols
    }

    open spec fn domain_dim(&self) -> nat {
        self.view().num_cols
    }

    open spec fn range_dim(&self) -> nat {
        self.view().num_rows
    }

    open spec fn spec_forward(&self, x: Seq<T>) -> Seq<T> {
        mat_vec(self.view(), x)
    }

    open spec fn spec_adjoint(&self, y: Seq<T>) -> Seq<T> {
        mat_t_vec(self.view(), y)
    }

    fn forward(&self, x: &[T]) -> (y: Vec<T>) {
        let y = dot_product(self.num_rows, self.num_cols, self.data.as_slice(), x);
        assert(y@ =~= mat_vec(self.view(), x@));
        y
    }

    fn adjoint(&self, y: &[T]) -> (x: Vec<T>) {
        let tmat = transpose(self.num_rows, self.num_cols, self.data.as_slice());
        assert(tmat@.len() == self.num_cols * self.num_rows) by (nonlinear_arith)
            requires tmat@.len() == self.num_rows * self.num_cols;
        let x = dot_product(self.num_cols, self.num_rows, tmat.as_slice(), y);
        assert forall|c: int| 0 <= c < self.num_cols implies #[trigger] x@[c] == mat_t_vec(self.view(), y@)[c] by {
            lemma_transpose_acc(tmat@, self.data@, self.num_rows as int, self.num_cols as int, y@, c, self.num_rows as int);
        }
        assert(x@ =~= mat_t_vec(self.view(), y@));
        x
    }
}

} // verus!

verus! {

/// Forward and adjoint are functions of the matrix and the input alone: on one
/// matrix, two calls with equal inputs return equal vectors.
pub proof fn lemma_deterministic<T: Scalar>(m: &DenseMatrix<T>, x1: Seq<T>, x2: Seq<T>, y1: Seq<T>, y2: Seq<T>)
    requires
        m.wf(),
        x1 == x2,
        y1 == y2,
    ensures
        m.spec_forward(x1) == m.spec_forward(x2),
        m.spec_adjoint(y1) == m.spec_adjoint(y2),
{
}

} // verus!
