use esn::mat::{
    dense_dot_product, scale_in_place, sparse_dense_dot_product, DenseRowMatrix, SparseRowMatrix,
};

#[test]
fn test_scale_in_place() {
    let mut v: Vec<i64> = vec![1, 2, 3];

    scale_in_place(-2, &mut v);

    assert_eq!(v[0], -2);
    assert_eq!(v[1], -4);
    assert_eq!(v[2], -6);
}

#[test]
fn test_dense_dot_product() {
    let v: Vec<i64> = vec![-1, 2, 5];
    let u: Vec<i64> = vec![3, 4, 3];
    let mut acc: i64 = 3;

    dense_dot_product(&v, &u, &mut acc);

    assert_eq!(acc, 3 - 3 + 8 + 15);

    dense_dot_product(&v, &u, &mut acc);

    assert_eq!(acc, 23 + 20);
}

#[test]
fn test_sparse_dense_dot_product() {
    let cols: Vec<usize> = vec![0, 1, 3];
    let vals: Vec<i64> = vec![3, 4, 5];
    let v: Vec<i64> = vec![2, 3, 4, 5, 6, 7];
    let mut acc: i64 = 5;

    sparse_dense_dot_product(&cols, &vals, &v, &mut acc);

    assert_eq!(acc, 5 + 2 * 3 + 3 * 4 + 5 * 5);
}

#[test]
fn test_dense_mul_accumulates() {
    // A pre-populated target receives the product on top of what it holds.
    let mut m = DenseRowMatrix::new(2, 2, 0);
    *m.get_mut(0, 0) = 1;
    *m.get_mut(0, 1) = 2;
    *m.get_mut(1, 0) = 3;
    *m.get_mut(1, 1) = 4;

    let v: Vec<i64> = vec![1, 1];
    let mut tgt: Vec<i64> = vec![10, 20];
    m.mul_in_place(&v, &mut tgt);

    assert_eq!(tgt, vec![13, 27]);
}

#[test]
fn test_sparse_dense_agree() {
    // The same matrix written both ways gives the same product.
    let sm = SparseRowMatrix {
        rows: 3,
        cols: 3,
        col_indices: vec![vec![0, 2], vec![1], vec![]],
        col_values: vec![vec![5, -1], vec![7], vec![]],
    };
    let mut dm = DenseRowMatrix::new(3, 3, 0);
    *dm.get_mut(0, 0) = 5;
    *dm.get_mut(0, 2) = -1;
    *dm.get_mut(1, 1) = 7;

    let v: Vec<i64> = vec![2, 3, 4];
    let mut out_s: Vec<i64> = vec![0, 0, 0];
    let mut out_d: Vec<i64> = vec![0, 0, 0];
    sm.mul_in_place(&v, &mut out_s);
    dm.mul_in_place(&v, &mut out_d);

    assert_eq!(out_s, out_d);
    assert_eq!(out_s, vec![6, 21, 0]);
}

#[test]
fn test_dense_new_fill() {
    let m = DenseRowMatrix::new(2, 3, 9);
    assert_eq!(m.rows, 2);
    assert_eq!(m.cols, 3);
    assert_eq!(m.values, vec![vec![9, 9, 9], vec![9, 9, 9]]);
}
