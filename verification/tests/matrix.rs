use linalg::{Matrix, Vector};

type TestMatrix = [i32; 4];
const A: TestMatrix = [1, 2, 3, 4];
const B: TestMatrix = [5, 6, 7, 8];

fn m(a2d: TestMatrix) -> Matrix<i32> {
    Matrix::square(Vec::from(&a2d[0..4])).unwrap()
}

#[test]
fn test_m() {
    assert_eq!(
        Matrix::try_from_columns(vec![
            Vector::from_vec(vec![1, 3]),
            Vector::from_vec(vec![2, 4])
        ])
        .unwrap(),
        m(A)
    );
    assert_eq!(
        Matrix::try_from_columns(vec![
            Vector::from_vec(vec![5, 7]),
            Vector::from_vec(vec![6, 8])
        ])
        .unwrap(),
        m(B)
    );
}

#[test]
fn from_vector() {
    assert_eq!(Matrix::from_vec(A.into(), 2, 2).unwrap(), m(A));
    assert_eq!(
        Matrix::from_vec(vec![1, 2, 3, 4, 5, 6], 3, 2).unwrap(),
        Matrix::try_from_columns(vec![
            Vector::from_vec(vec![1, 3, 5]),
            Vector::from_vec(vec![2, 4, 6])
        ])
        .unwrap()
    );
}

#[test]
fn try_from_vec_vector() {}

#[test]
fn try_from_vec_vec() {}
