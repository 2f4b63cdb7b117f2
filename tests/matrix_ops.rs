use linalg::{LinalgError, Matrix};

fn m(rows: usize, cols: usize, vals: Vec<i64>) -> Matrix<i64> {
    Matrix::from_vec(rows, cols, vals).unwrap()
}

#[test]
fn matrix_shape_queries() {
    let a = m(2, 3, vec![1, 2, 3, 4, 5, 6]);
    assert_eq!(a.rows(), 2);
    assert_eq!(a.cols(), 3);
    assert_eq!(a.dims(), (2, 3));
    assert!(!a.is_square());
    assert!(m(2, 2, vec![1, 2, 3, 4]).is_square());
}

#[test]
fn matrix_new_is_row_major_and_one_based() {
    let a = Matrix::new(2, 3, |l, c| l * 10 + c).unwrap();
    assert_eq!(*a.index(1, 1).unwrap(), 11);
    assert_eq!(*a.index(1, 3).unwrap(), 13);
    assert_eq!(*a.index(2, 1).unwrap(), 21);
    assert_eq!(*a.index(2, 3).unwrap(), 23);
    let b = m(2, 2, vec![1, 2, 3, 4]);
    assert_eq!(*b.index(1, 2).unwrap(), 2);
    assert_eq!(*b.index(2, 1).unwrap(), 3);
}

#[test]
fn matrix_constructors() {
    let z = Matrix::<i32>::zeros(2, 2).unwrap();
    assert_eq!(z, Matrix::repeat(0, 2, 2).unwrap());
    assert_eq!(Matrix::<i32>::zeros(0, 2).unwrap_err(), LinalgError::InvalidDimension);
    assert_eq!(Matrix::repeat(1, 2, 0).unwrap_err(), LinalgError::InvalidDimension);
    assert_eq!(Matrix::new(0, 0, |_, _| 1).unwrap_err(), LinalgError::InvalidDimension);
    assert_eq!(Matrix::from_vec(2, 2, vec![1, 2, 3]).unwrap_err(), LinalgError::DimensionMismatch);
    let longer = Matrix::from_vec(1, 2, vec![5, 6, 7]).unwrap();
    assert_eq!(longer, Matrix::from_vec(1, 2, vec![5, 6]).unwrap());
}

#[test]
fn matrix_product_two_by_two() {
    let a = m(2, 2, vec![1, 2, 3, 4]);
    let b = m(2, 2, vec![5, 6, 7, 8]);
    assert_eq!(a.mul(b).unwrap(), m(2, 2, vec![19, 22, 43, 50]));
}

#[test]
fn matrix_product_three_by_three() {
    let a = m(3, 3, vec![1, 2, 3, 4, 5, 6, 7, 8, 9]);
    let b = m(3, 3, vec![9, 8, 7, 6, 5, 4, 3, 2, 1]);
    assert_eq!(a.mul(b).unwrap(), m(3, 3, vec![30, 24, 18, 84, 69, 54, 138, 114, 90]));
}

#[test]
fn matrix_product_rectangular() {
    let a = m(2, 3, vec![1, 2, 3, 4, 5, 6]);
    let b = m(3, 1, vec![1, 0, -1]);
    let p = a.mul(b).unwrap();
    assert_eq!(p.dims(), (2, 1));
    assert_eq!(p, m(2, 1, vec![-2, -2]));
}

#[test]
fn matrix_sum_difference_and_scaling() {
    let a = m(2, 2, vec![1, 2, 3, 4]);
    let b = m(2, 2, vec![10, 20, 30, 40]);
    assert_eq!(a.clone().add(b.clone()).unwrap(), m(2, 2, vec![11, 22, 33, 44]));
    assert_eq!(b.sub(a.clone()).unwrap(), m(2, 2, vec![9, 18, 27, 36]));
    assert_eq!(a.scale(3i64), m(2, 2, vec![3, 6, 9, 12]));
}

#[test]
fn mismatched_matrices_are_refused() {
    let a = m(2, 3, vec![1, 2, 3, 4, 5, 6]);
    let b = m(3, 2, vec![1, 2, 3, 4, 5, 6]);
    assert_eq!(a.clone().add(b.clone()).unwrap_err(), LinalgError::DimensionMismatch);
    assert_eq!(a.clone().sub(b.clone()).unwrap_err(), LinalgError::DimensionMismatch);
    assert_eq!(a.clone().mul(a.clone()).unwrap_err(), LinalgError::DimensionMismatch);
}

#[test]
fn matrix_index_bounds() {
    let mut a = m(2, 2, vec![1, 2, 3, 4]);
    assert_eq!(a.index(0, 1).unwrap_err(), LinalgError::IndexOutOfBounds);
    assert_eq!(a.index(1, 0).unwrap_err(), LinalgError::IndexOutOfBounds);
    assert_eq!(a.index(3, 1).unwrap_err(), LinalgError::IndexOutOfBounds);
    assert_eq!(a.index(1, 3).unwrap_err(), LinalgError::IndexOutOfBounds);
    assert_eq!(a.set(0, 1, 9).unwrap_err(), LinalgError::IndexOutOfBounds);
    assert_eq!(a.set(1, 3, 9).unwrap_err(), LinalgError::IndexOutOfBounds);
    a.set(2, 1, 9).unwrap();
    assert_eq!(a, m(2, 2, vec![1, 2, 9, 4]));
}
