use linalg::{Matrix, ShapeError, Vector};
use std::vec::IntoIter;

type TestArr = [i32; 2];
const A: TestArr = [1, 2];
const B: TestArr = [3, 5];

fn v(arr: TestArr) -> Vector<i32> {
    Vector::from_slice(&arr[0..2])
}

fn assert_eq_iter<T: PartialEq>(mut a: IntoIter<T>, mut b: IntoIter<T>) {
    assert!(a.all(|e| e == b.next().unwrap()));
}

#[test]
fn assert_eq_iter_test() {
    let v = vec![1, 2, 3];
    assert_eq_iter(v.clone().into_iter(), v.into_iter());
}

#[test]
fn index() {
    let a = v(A);
    let b = v(B);
    assert_eq!(*a.index(1), 1);
    assert_eq!(*a.index(2), 2);
    assert_eq!(*b.index(1), 3);
    assert_eq!(*b.index(2), 5);
}

#[test]
fn index_mut() {
    let mut c = v(A);
    c.index_mut(1, 3);
    assert_eq!(c, v([3, 2]));
}

#[test]
fn add() {
    assert_eq!(v(A).add(v(B)), v([4, 7]));
}

#[test]
fn add_ref() {
    assert_eq!(v(A).add_ref(&v(B)), v([4, 7]))
}

#[test]
fn sub() {
    assert_eq!(v(A).sub(v(B)), v([-2, -3]));
}

#[test]
fn sub_ref() {
    assert_eq!(v(A).sub_ref(&v(B)), v([-2, -3]));
}

#[test]
fn neg() {
    assert_eq!(v(A).neg(), v([-1, -2]));
    assert_eq!(v(B).neg(), v([-3, -5]));
}

#[test]
fn neg_ref() {
    assert_eq!(v(A).neg_ref(), v([-1, -2]));
    assert_eq!(v(B).neg_ref(), v([-3, -5]));
}

#[test]
fn mul() {
    assert_eq!(v(A).mul(2), v([2, 4]));
    assert_eq!(v(B).mul(-3), v([-9, -15]));
}

#[test]
fn mul_ref() {
    assert_eq!(v(A).mul_ref(2), v([2, 4]));
    assert_eq!(v(B).mul_ref(-3), v([-9, -15]));
}

#[test]
fn display() {
    assert_eq!(v(A).display(), "<1, 2>");
    assert_eq!(v(B).display(), "<3, 5>");
}

#[test]
fn into_iter() {
    let vec_a = v(A).into_vec().into_iter();
    let arr_a = Vec::from(A).into_iter();
    assert_eq_iter(vec_a, arr_a);

    let vec_b = v(B).into_vec().into_iter();
    let arr_b = Vec::from(B).into_iter();
    assert_eq_iter(vec_b, arr_b);
}

#[test]
fn test_v() {
    assert_eq!(Vector::from_vec(Vec::from(A)), v(A));
    assert_eq!(Vector::from_vec(Vec::from(B)), v(B));
}

#[test]
fn from_vec() {
    assert_eq!(Vector::from_vec(vec![1, 2]), v(A));
    assert_eq!(Vector::from_vec(vec![3, 5]), v(B));
}

#[test]
fn from_arr_slice() {
    assert_eq!(Vector::from_slice(&A[0..2]), v(A));
    assert_eq!(Vector::from_slice(&B[0..2]), v(B));
}

#[test]
fn try_from_matrix() {
    assert_eq!(
        Vector::try_from_matrix(Matrix::from_vector(v(A))),
        Ok(v(A))
    );
    let square = Matrix::square(vec![1, 2, 3, 4]).unwrap();
    let err = Vector::try_from_matrix(square).unwrap_err();
    assert_eq!(err, ShapeError::ShapeMismatch);
    assert_eq!(err.text(), "Cannot convert 2D matrix to vector");
}
