use linalg::{LinalgError, Vector};

#[test]
fn basic() {
    let v1 = Vector::repeat(2.0, 5).unwrap();
    let v2 = Vector::from_vec(vec!(2, 2, 2, 2, 2)).unwrap();
    let v3 = Vector::new(5, |_| 2.0).unwrap();
    assert_eq!(v1, v2);
    assert_eq!(v1, v3);
    assert_eq!(v2, v3);
}

#[test]
fn sum() {
    let v1 = Vector::<f64>::from_vec(vec!(1, 2, 3, 4, 5)).unwrap();
    let v2 = Vector::<f64>::from_vec(vec!(0, 1, 2, 4, 0)).unwrap();
    assert_eq!(v1.add(v2).unwrap(), Vector::from_vec(vec!(1, 3, 5, 8, 5)).unwrap());
    let v1 = Vector::<i8>::from_vec(vec!(1, 2, 3, 4, 5)).unwrap();
    let v2 = Vector::<i8>::from_vec(vec!(0, 1, 2, 4, 0)).unwrap();
    let v3 = Vector::repeat(0, 5).unwrap();
    assert_eq!(v3.add(v1).unwrap().add(v2).unwrap(), Vector::from_vec(vec!(1, 3, 5, 8, 5)).unwrap());
    let v1 = Vector::repeat(0, 5).unwrap();
    let v2 = Vector::repeat(1, 5).unwrap();
    assert_eq!(v1.add(v2).unwrap(), Vector::new(5, |_| 1).unwrap())
}

#[test]
fn product() {
    let v1 = Vector::repeat(1, 5).unwrap();
    assert_eq!(v1.mul(5), Vector::repeat(5, 5).unwrap());
    let v1 = Vector::<f64>::from_vec(vec!(1, 2, 3, 4, 5)).unwrap();
    assert_eq!(v1.mul(2.0), Vector::from_vec(vec!(2, 4, 6, 8, 10)).unwrap());
    let v1 = Vector::repeat(1, 5).unwrap();
    let v2 = Vector::<i32>::from_vec(vec!(1, 2, 3, 4, 5)).unwrap();
    let v3 = Vector::<i32>::from_vec(vec!(2, 1, 2, 1, 2)).unwrap();
    assert_eq!(Vector::scalar_product(v1, v2.clone()).unwrap(), 15);
    assert_eq!(Vector::scalar_product(v2, v3).unwrap(), 24);
}

#[test]
fn constructions_agree() {
    let a = Vector::repeat(7i64, 4).unwrap();
    let b = Vector::new(4, |_| 7i64).unwrap();
    let c = Vector::<i64>::from_vec(vec![7i64; 4]).unwrap();
    assert_eq!(a, b);
    assert_eq!(b, c);
    assert_eq!(a.dims(), 4);
}

#[test]
fn new_calls_generator_with_one_based_indices() {
    let v = Vector::new(3, |i| i * 10).unwrap();
    assert_eq!(*v.index(1).unwrap(), 10);
    assert_eq!(*v.index(3).unwrap(), 30);
}

#[test]
fn zero_dimension_is_refused() {
    assert_eq!(Vector::new(0, |_| 1).unwrap_err(), LinalgError::InvalidDimension);
    assert_eq!(Vector::repeat(1, 0).unwrap_err(), LinalgError::InvalidDimension);
    assert_eq!(Vector::<i32>::from_vec(Vec::<i32>::new()).unwrap_err(), LinalgError::InvalidDimension);
}

#[test]
fn elementwise_sum_and_difference() {
    let a = Vector::<i32>::from_vec(vec![1, 2, 3]).unwrap();
    let b = Vector::<i32>::from_vec(vec![10, 20, 30]).unwrap();
    let s = a.clone().add(b.clone()).unwrap();
    assert_eq!(s, Vector::<i32>::from_vec(vec![11, 22, 33]).unwrap());
    let d = b.sub(a).unwrap();
    assert_eq!(d, Vector::<i32>::from_vec(vec![9, 18, 27]).unwrap());
}

#[test]
fn sum_is_associative_on_integers() {
    let a = || Vector::<i32>::from_vec(vec![1, -2, 3]).unwrap();
    let b = || Vector::<i32>::from_vec(vec![4, 5, -6]).unwrap();
    let c = || Vector::<i32>::from_vec(vec![-7, 8, 9]).unwrap();
    let left = a().add(b()).unwrap().add(c()).unwrap();
    let right = a().add(b().add(c()).unwrap()).unwrap();
    assert_eq!(left, right);
}

#[test]
fn scaling_distributes_over_sum() {
    let a = Vector::<i32>::from_vec(vec![1, 2, 3]).unwrap();
    let b = Vector::<i32>::from_vec(vec![4, 5, 6]).unwrap();
    let left = a.clone().add(b.clone()).unwrap().mul(3);
    let right = a.mul(3).add(b.mul(3)).unwrap();
    assert_eq!(left, right);
    assert_eq!(left, Vector::<i32>::from_vec(vec![15, 21, 27]).unwrap());
}

#[test]
fn mismatched_vectors_are_refused() {
    let a = Vector::<i32>::from_vec(vec![1, 2, 3]).unwrap();
    let b = Vector::<i32>::from_vec(vec![1, 2]).unwrap();
    assert_eq!(a.clone().add(b.clone()).unwrap_err(), LinalgError::DimensionMismatch);
    assert_eq!(a.clone().sub(b.clone()).unwrap_err(), LinalgError::DimensionMismatch);
    assert_eq!(Vector::scalar_product(a, b).unwrap_err(), LinalgError::DimensionMismatch);
}

#[test]
fn vector_index_bounds() {
    let mut v = Vector::<i32>::from_vec(vec![1, 2, 3]).unwrap();
    assert_eq!(v.index(0).unwrap_err(), LinalgError::IndexOutOfBounds);
    assert_eq!(v.index(4).unwrap_err(), LinalgError::IndexOutOfBounds);
    assert_eq!(v.set(0, 9).unwrap_err(), LinalgError::IndexOutOfBounds);
    assert_eq!(v.set(4, 9).unwrap_err(), LinalgError::IndexOutOfBounds);
    assert_eq!(v, Vector::<i32>::from_vec(vec![1, 2, 3]).unwrap());
    v.set(2, 9).unwrap();
    assert_eq!(*v.index(2).unwrap(), 9);
}
