use rlop::{
    dense_matrix_adjoint, dense_matrix_forward, dense_matrix_new, dot_product, transpose, DenseMatrix,
    LinearOperator, Scalar,
};

#[derive(Clone, Copy, Debug, PartialEq)]
struct Real(f64);

impl Scalar for Real {
    fn zero() -> Real {
        Real(0.0)
    }

    fn add_product(acc: Real, a: Real, b: Real) -> Real {
        Real(acc.0 + a.0 * b.0)
    }
}

fn reals(v: &[f64]) -> Vec<Real> {
    v.iter().map(|&f| Real(f)).collect()
}

#[test]
fn test_dense_forward() {
    let mat: Vec<f64> = vec![1., 2., 3., 4., 5., 6.];
    let x: Vec<f64> = vec![1.7, 2.2, 3.9];

    let dense_mat = DenseMatrix::new(&reals(&mat), 2, 3);
    let y_exp = vec![17.8, 41.2];
    let y = dense_mat.forward(&reals(&x));

    assert_eq!(y.len(), y_exp.len());
    for (&v_exp, &v) in y_exp.iter().zip(y.iter()) {
        assert!((v_exp - v.0).abs() < 1e-8);
    }
}

#[test]
fn test_dense_adjoint() {
    let mat: Vec<f64> = vec![1., 2., 3., 4., 5., 6.];
    let y: Vec<f64> = vec![6.1, 0.4];
    let dense_mat = DenseMatrix::new(&reals(&mat), 2, 3);
    let x_exp = vec![7.7, 14.2, 20.7];
    let x = dense_mat.adjoint(&reals(&y));

    assert_eq!(x.len(), x_exp.len());
    for (&v_exp, &v) in x_exp.iter().zip(x.iter()) {
        assert!((v_exp - v.0).abs() < 1e-8);
    }
}

#[test]
fn adjoint_identity_on_reals() {
    let mat = reals(&[1.5, -2.0, 0.25, 3.0, 4.5, -1.0, 2.0, 0.5]);
    let m = DenseMatrix::new(&mat, 2, 4);
    let x = reals(&[0.3, -1.2, 2.5, 4.0]);
    let y = reals(&[-0.7, 1.9]);
    let mx = m.forward(&x);
    let mty = m.adjoint(&y);
    let lhs: f64 = mx.iter().zip(y.iter()).map(|(a, b)| a.0 * b.0).sum();
    let rhs: f64 = x.iter().zip(mty.iter()).map(|(a, b)| a.0 * b.0).sum();
    assert!((lhs - rhs).abs() < 1e-8);
}

#[test]
fn adjoint_identity_on_integers() {
    let m = DenseMatrix::new(&[2u64, 7, 1, 8, 2, 8], 3, 2);
    let x = [3u64, 5];
    let y = [1u64, 4, 9];
    let lhs: u64 = m.forward(&x).iter().zip(y.iter()).map(|(a, b)| a * b).sum();
    let rhs: u64 = x.iter().zip(m.adjoint(&y).iter()).map(|(a, b)| a * b).sum();
    assert_eq!(lhs, rhs);
}

#[test]
fn forward_exact_integers() {
    let m = DenseMatrix::new(&[1u64, 2, 3, 4, 5, 6], 2, 3);
    assert_eq!(m.forward(&[1, 0, 2]), vec![7, 16]);
    assert_eq!(m.num_rows(), 2);
    assert_eq!(m.num_cols(), 3);
}

#[test]
fn adjoint_exact_integers() {
    let m = DenseMatrix::new(&[1u64, 2, 3, 4, 5, 6], 2, 3);
    assert_eq!(m.adjoint(&[2, 1]), vec![6, 9, 12]);
}

#[test]
fn arithmetic_wraps_modulo_word() {
    let m = DenseMatrix::new(&[u64::MAX, 2], 1, 2);
    assert_eq!(m.forward(&[1, 1]), vec![1]);
    assert_eq!(m.adjoint(&[3]), vec![u64::MAX - 2, 6]);
}

#[test]
fn shapes_follow_dimensions() {
    let m = DenseMatrix::new(&[0u64; 12], 3, 4);
    assert_eq!(m.forward(&[1, 2, 3, 4]).len(), 3);
    assert_eq!(m.adjoint(&[1, 2, 3]).len(), 4);
}

#[test]
fn zero_rows_give_empty_forward() {
    let m: DenseMatrix<u64> = DenseMatrix::new(&[], 0, 3);
    assert!(m.forward(&[1, 2, 3]).is_empty());
    assert_eq!(m.adjoint(&[]), vec![0, 0, 0]);
}

#[test]
fn zero_cols_give_empty_adjoint() {
    let m: DenseMatrix<u64> = DenseMatrix::new(&[], 2, 0);
    assert!(m.adjoint(&[1, 2]).is_empty());
    assert_eq!(m.forward(&[]), vec![0, 0]);
}

#[test]
fn zero_by_zero_is_empty_both_ways() {
    let m: DenseMatrix<Real> = DenseMatrix::new(&[], 0, 0);
    assert!(m.forward(&[]).is_empty());
    assert!(m.adjoint(&[]).is_empty());
}

#[test]
fn repeated_calls_are_bit_identical() {
    let m = DenseMatrix::new(&reals(&[0.1, 0.2, 0.3, 0.4, 0.5, 0.6]), 3, 2);
    let x = reals(&[1.1, -2.3]);
    let y = reals(&[0.7, 0.11, -5.0]);
    let f1 = m.forward(&x);
    let f2 = m.forward(&x);
    let a1 = m.adjoint(&y);
    let a2 = m.adjoint(&y);
    for (p, q) in f1.iter().zip(f2.iter()).chain(a1.iter().zip(a2.iter())) {
        assert_eq!(p.0.to_bits(), q.0.to_bits());
    }
}

#[test]
fn construction_copies_the_buffer() {
    let mut buf = vec![1u64, 2, 3, 4];
    let m = DenseMatrix::new(&buf, 2, 2);
    let before = m.forward(&[1, 1]);
    buf[0] = 100;
    buf[3] = 200;
    assert_eq!(m.forward(&[1, 1]), before);
    assert_eq!(before, vec![3, 7]);
}

#[test]
fn transpose_moves_entries() {
    let t = transpose(2, 3, &[1u64, 2, 3, 4, 5, 6]);
    assert_eq!(t, vec![1, 4, 2, 5, 3, 6]);
    assert!(transpose::<u64>(0, 4, &[]).is_empty());
}

#[test]
fn dot_product_rows() {
    let y = dot_product(3, 2, &[1u64, 2, 3, 4, 5, 6], &[10, 1]);
    assert_eq!(y, vec![12, 34, 56]);
    assert_eq!(dot_product::<u64>(2, 0, &[], &[]), vec![0, 0]);
}

#[test]
fn handle_forward_writes_caller_buffer() {
    let h = dense_matrix_new(&reals(&[1., 2., 3., 4., 5., 6.]), 2, 3);
    let mut y = [Real(-1.0); 2];
    dense_matrix_forward(&h, &reals(&[1.7, 2.2, 3.9]), &mut y);
    assert!((y[0].0 - 17.8).abs() < 1e-8);
    assert!((y[1].0 - 41.2).abs() < 1e-8);
}

#[test]
fn handle_adjoint_writes_caller_buffer() {
    let h = dense_matrix_new(&[1u64, 2, 3, 4, 5, 6], 2, 3);
    let mut x = [99u64; 3];
    dense_matrix_adjoint(&h, &[6, 1], &mut x);
    assert_eq!(x, [10, 17, 24]);
}

#[test]
fn handle_copies_the_buffer() {
    let mut buf = vec![2u64, 0, 0, 3];
    let h = dense_matrix_new(&buf, 2, 2);
    buf.iter_mut().for_each(|v| *v = 0);
    let mut y = [0u64; 2];
    dense_matrix_forward(&h, &[5, 7], &mut y);
    assert_eq!(y, [10, 21]);
}

#[test]
fn handle_on_empty_matrix_writes_nothing() {
    let h: Box<DenseMatrix<u64>> = dense_matrix_new(&[], 0, 4);
    let mut y: [u64; 0] = [];
    dense_matrix_forward(&h, &[1, 2, 3, 4], &mut y);
    let mut x = [9u64; 4];
    dense_matrix_adjoint(&h, &[], &mut x);
    assert_eq!(x, [0, 0, 0, 0]);
}

#[test]
fn adjoint_identity_holds_when_words_wrap() {
    let big = u64::MAX - 5;
    let m = DenseMatrix::new(&[big, 3, 7, big / 2, 11, big], 2, 3);
    let x = [big, 2, big - 9];
    let y = [5, big / 3];
    let wdot = |a: &[u64], b: &[u64]| a.iter().zip(b).fold(0u64, |s, (p, q)| s.wrapping_add(p.wrapping_mul(*q)));
    let lhs = wdot(&m.forward(&x), &y);
    let rhs = wdot(&x, &m.adjoint(&y));
    assert_eq!(lhs, rhs);
}
