//! Exact arithmetic on row-major matrices over the integers, and the identity
//! that makes the transpose product the adjoint of the matrix product.
use vstd::prelude::*;
use vstd::arithmetic::div_mod::{
    lemma_add_mod_noop_right, lemma_mod_add_multiples_vanish, lemma_mul_mod_noop_left,
    lemma_mul_mod_noop_right, lemma_small_mod,
};
use crate::scalar::Scalar;
use crate::kernel::{entry, row_acc, col_acc, lemma_entry_in_bounds};
use crate::operator::{DenseMatrix, LinearOperator};

verus! {

/// `Σ_{c < n} m[r][c] * x[c]`.
pub open spec fn sum_row(m: Seq<int>, num_cols: int, x: Seq<int>, r: int, n: int) -> int
    decreases n,
{
    if n <= 0 {
        0
    } else {
        sum_row(m, num_cols, x, r, n - 1) + entry(m, num_cols, r, n - 1) * x[n - 1]
    }
}

/// `Σ_{r < n} m[r][c] * y[r]`.
pub open spec fn sum_col(m: Seq<int>, num_cols: int, y: Seq<int>, c: int, n: int) -> int
    decreases n,
{
    if n <= 0 {
        0
    } else {
        sum_col(m, num_cols, y, c, n - 1) + entry(m, num_cols, n - 1, c) * y[n - 1]
    }
}

/// `Σ_{i < n} a[i] * b[i]`.
pub open spec fn dot(a: Seq<int>, b: Seq<int>, n: int) -> int
    decreases n,
{
    if n <= 0 {
        0
    } else {
        dot(a, b, n - 1) + a[n - 1] * b[n - 1]
    }
}

/// The exact product `m x` of a `num_rows` by `num_cols` matrix.
pub open spec fn int_mat_vec(m: Seq<int>, num_rows: nat, num_cols: nat, x: Seq<int>) -> Seq<int> {
    Seq::new(num_rows, |r: int| sum_row(m, num_cols as int, x, r, num_cols as int))
}

/// The exact transpose product `mᵗ y` of a `num_rows` by `num_cols` matrix.
pub open spec fn int_mat_t_vec(m: Seq<int>, num_rows: nat, num_cols: nat, y: Seq<int>) -> Seq<int> {
    Seq::new(num_cols, |c: int| sum_col(m, num_cols as int, y, c, num_rows as int))
}

/// `Σ_{c < n} x[c] * (Σ_{r < rows} m[r][c] * y[r])`.
spec fn col_sums(m: Seq<int>, num_cols: int, x: Seq<int>, y: Seq<int>, rows: int, n: int) -> int
    decreases n,
{
    if n <= 0 {
        0
    } else {
        col_sums(m, num_cols, x, y, rows, n - 1) + x[n - 1] * sum_col(m, num_cols, y, n - 1, rows)
    }
}

/// Adding row `rows - 1` to every column sum adds that row's product with `x`,
/// scaled by `y[rows - 1]`.
proof fn lemma_col_sums_step(m: Seq<int>, num_cols: int, x: Seq<int>, y: Seq<int>, rows: int, n: int)
    requires
        rows >= 1,
    ensures
        col_sums(m, num_cols, x, y, rows, n) == col_sums(m, num_cols, x, y, rows - 1, n)
            + sum_row(m, num_cols, x, rows - 1, n) * y[rows - 1],
    decreases n,
{
    if n > 0 {
        lemma_col_sums_step(m, num_cols, x, y, rows, n - 1);
        let xc = x[n - 1];
        let yr = y[rows - 1];
        let e = entry(m, num_cols, rows - 1, n - 1);
        let s = sum_col(m, num_cols, y, n - 1, rows - 1);
        let p = sum_row(m, num_cols, x, rows - 1, n - 1);
        assert(xc * (s + e * yr) + p * yr == xc * s + (p + e * xc) * yr) by (nonlinear_arith);
    }
}

/// The product with the matrix, summed against `y`, equals the column sums.
proof fn lemma_rows_side(m: Seq<int>, num_rows: nat, num_cols: nat, x: Seq<int>, y: Seq<int>, rows: int)
    requires
        0 <= rows <= num_rows,
    ensures
        dot(int_mat_vec(m, num_rows, num_cols, x), y, rows) == col_sums(m, num_cols as int, x, y, rows, num_cols as int),
    decreases rows,
{
    if rows > 0 {
        lemma_rows_side(m, num_rows, num_cols, x, y, rows - 1);
        lemma_col_sums_step(m, num_cols as int, x, y, rows, num_cols as int);
    } else {
        lemma_col_sums_zero(m, num_cols as int, x, y, num_cols as int);
    }
}

proof fn lemma_col_sums_zero(m: Seq<int>, num_cols: int, x: Seq<int>, y: Seq<int>, n: int)
    ensures
        col_sums(m, num_cols, x, y, 0, n) == 0,
    decreases n,
{
    if n > 0 {
        lemma_col_sums_zero(m, num_cols, x, y, n - 1);
    }
}

/// `x` summed against the transpose product equals the column sums.
proof fn lemma_cols_side(m: Seq<int>, num_rows: nat, num_cols: nat, x: Seq<int>, y: Seq<int>, n: int)
    requires
        0 <= n <= num_cols,
    ensures
        dot(x, int_mat_t_vec(m, num_rows, num_cols, y), n) == col_sums(m, num_cols as int, x, y, num_rows as int, n),
    decreases n,
{
    if n > 0 {
        lemma_cols_side(m, num_rows, num_cols, x, y, n - 1);
    }
}

/// The adjoint identity: for every `num_rows` by `num_cols` matrix `m` and
/// vectors `x` of length `num_cols` and `y` of length `num_rows`,
/// `<m x, y> == <x, mᵗ y>`.
pub proof fn lemma_adjoint_identity(m: Seq<int>, num_rows: nat, num_cols: nat, x: Seq<int>, y: Seq<int>)
    requires
        m.len() == num_rows * num_cols,
        x.len() == num_cols,
        y.len() == num_rows,
    ensures
        dot(int_mat_vec(m, num_rows, num_cols, x), y, num_rows as int)
            == dot(x, int_mat_t_vec(m, num_rows, num_cols, y), num_cols as int),
{
    lemma_rows_side(m, num_rows, num_cols, x, y, num_rows as int);
    lemma_cols_side(m, num_rows, num_cols, x, y, num_cols as int);
}

/// `Σ_{i < n} a[i] * b[i]` in the arithmetic of the element type, summed in
/// index order.
pub open spec fn acc_dot<T: Scalar>(a: Seq<T>, b: Seq<T>, n: int) -> T
    decreases n,
{
    if n <= 0 {
        T::spec_zero()
    } else {
        T::spec_add_product(acc_dot(a, b, n - 1), a[n - 1], b[n - 1])
    }
}

/// The number of values of a 64-bit word.
pub open spec fn word_modulus() -> int {
    0x1_0000_0000_0000_0000
}

/// The words of `s` read as integers.
pub open spec fn lift(s: Seq<u64>) -> Seq<int> {
    s.map_values(|v: u64| v as int)
}

/// One wrapping step is the exact step reduced modulo the word size.
proof fn lemma_add_product_mod(acc: u64, a: u64, b: u64)
    ensures
        <u64 as Scalar>::spec_add_product(acc, a, b) as int == (acc as int + a as int * b as int) % word_modulus(),
{
    let m = word_modulus();
    let p = (a as int * b as int) % m;
    assert(0 <= p < m);
    let z = acc as int + p;
    if z >= m {
        lemma_mod_add_multiples_vanish(z - m, m);
        lemma_small_mod((z - m) as nat, m as nat);
    } else {
        lemma_small_mod(z as nat, m as nat);
    }
    assert(z % m == <u64 as Scalar>::spec_add_product(acc, a, b) as int);
    lemma_add_mod_noop_right(acc as int, a as int * b as int, m);
}

/// Adding a product to a sum known only modulo the word size.
proof fn lemma_step_mod(s: int, e: int, v: int)
    ensures
        ((s % word_modulus()) + e * v) % word_modulus() == (s + e * v) % word_modulus(),
{
    let m = word_modulus();
    lemma_add_mod_noop_right(e * v, s, m);
}

proof fn lemma_row_acc_mod(m: Seq<u64>, num_rows: int, num_cols: int, x: Seq<u64>, r: int, n: int)
    requires
        m.len() == num_rows * num_cols,
        x.len() == num_cols,
        0 <= r < num_rows,
        0 <= n <= num_cols,
    ensures
        row_acc(m, num_cols, x, r, n) as int == sum_row(lift(m), num_cols, lift(x), r, n) % word_modulus(),
    decreases n,
{
    if n > 0 {
        lemma_row_acc_mod(m, num_rows, num_cols, x, r, n - 1);
        lemma_entry_in_bounds(num_rows, num_cols, r, n - 1);
        let e = entry(m, num_cols, r, n - 1);
        assert(entry(lift(m), num_cols, r, n - 1) == e as int);
        lemma_add_product_mod(row_acc(m, num_cols, x, r, n - 1), e, x[n - 1]);
        lemma_step_mod(sum_row(lift(m), num_cols, lift(x), r, n - 1), e as int, x[n - 1] as int);
    }
}

proof fn lemma_col_acc_mod(m: Seq<u64>, num_rows: int, num_cols: int, y: Seq<u64>, c: int, n: int)
    requires
        m.len() == num_rows * num_cols,
        y.len() == num_rows,
        0 <= c < num_cols,
        0 <= n <= num_rows,
    ensures
        col_acc(m, num_cols, y, c, n) as int == sum_col(lift(m), num_cols, lift(y), c, n) % word_modulus(),
    decreases n,
{
    if n > 0 {
        lemma_col_acc_mod(m, num_rows, num_cols, y, c, n - 1);
        lemma_entry_in_bounds(num_rows, num_cols, n - 1, c);
        let e = entry(m, num_cols, n - 1, c);
        assert(entry(lift(m), num_cols, n - 1, c) == e as int);
        lemma_add_product_mod(col_acc(m, num_cols, y, c, n - 1), e, y[n - 1]);
        lemma_step_mod(sum_col(lift(m), num_cols, lift(y), c, n - 1), e as int, y[n - 1] as int);
    }
}

/// The wrapping inner product is the exact one of any integer vectors that
/// agree with the words modulo the word size.
proof fn lemma_acc_dot_mod(a: Seq<u64>, b: Seq<u64>, ia: Seq<int>, ib: Seq<int>, n: int)
    requires
        0 <= n <= a.len(),
        n <= b.len(),
        n <= ia.len(),
        n <= ib.len(),
        forall|i: int| 0 <= i < n ==> #[trigger] ia[i] % word_modulus() == a[i] as int,
        forall|i: int| 0 <= i < n ==> #[trigger] ib[i] % word_modulus() == b[i] as int,
    ensures
        acc_dot(a, b, n) as int == dot(ia, ib, n) % word_modulus(),
    decreases n,
{
    if n > 0 {
        let md = word_modulus();
        lemma_acc_dot_mod(a, b, ia, ib, n - 1);
        let (u, v) = (ia[n - 1], ib[n - 1]);
        assert(u % md == a[n - 1] as int);
        assert(v % md == b[n - 1] as int);
        lemma_add_product_mod(acc_dot(a, b, n - 1), a[n - 1], b[n - 1]);
        lemma_mul_mod_noop_left(u, v, md);
        lemma_mul_mod_noop_right(u % md, v, md);
        lemma_add_mod_noop_right(acc_dot(a, b, n - 1) as int, (u % md) * (v % md), md);
        lemma_add_mod_noop_right(acc_dot(a, b, n - 1) as int, u * v, md);
        lemma_step_mod(dot(ia, ib, n - 1), u, v);
    }
}

/// Every word lies below the word size.
proof fn lemma_lift_mod(s: Seq<u64>)
    ensures
        forall|i: int| 0 <= i < s.len() ==> #[trigger] lift(s)[i] % word_modulus() == s[i] as int,
{
    assert forall|i: int| 0 <= i < s.len() implies #[trigger] lift(s)[i] % word_modulus() == s[i] as int by {
        lemma_small_mod(s[i] as nat, word_modulus() as nat);
    }
}

/// The adjoint identity for matrices of 64-bit words with wrapping arithmetic:
/// for every matrix `m` and vectors `x` of length `num_cols` and `y` of length
/// `num_rows`, `<m x, y> == <x, mᵗ y>`, both sides summed with `acc_dot`.
pub proof fn lemma_adjoint_identity_wrapping(m: &DenseMatrix<u64>, x: Seq<u64>, y: Seq<u64>)
    requires
        m.wf(),
        x.len() == m.domain_dim(),
        y.len() == m.range_dim(),
    ensures
        acc_dot(m.spec_forward(x), y, m.range_dim() as int) == acc_dot(x, m.spec_adjoint(y), m.domain_dim() as int),
{
    let v = m.view();
    let (nr, nc) = (v.num_rows, v.num_cols);
    let md = word_modulus();
    let fx = m.spec_forward(x);
    let ay = m.spec_adjoint(y);
    let imv = int_mat_vec(lift(v.data), nr, nc, lift(x));
    let imtv = int_mat_t_vec(lift(v.data), nr, nc, lift(y));
    assert forall|r: int| 0 <= r < nr implies #[trigger] imv[r] % md == fx[r] as int by {
        lemma_row_acc_mod(v.data, nr as int, nc as int, x, r, nc as int);
    }
    assert forall|c: int| 0 <= c < nc implies #[trigger] imtv[c] % md == ay[c] as int by {
        lemma_col_acc_mod(v.data, nr as int, nc as int, y, c, nr as int);
    }
    lemma_lift_mod(x);
    lemma_lift_mod(y);
    lemma_acc_dot_mod(fx, y, imv, lift(y), nr as int);
    lemma_acc_dot_mod(x, ay, lift(x), imtv, nc as int);
    lemma_adjoint_identity(lift(v.data), nr, nc, lift(x), lift(y));
}

} // verus!
