use linalg::{Matrix, Numeric, Point, ShapeError, Vector};

fn v(elements: &[i32]) -> Vector<i32> {
    Vector::from_slice(elements)
}

#[test]
fn matrix_add_then_sub_restores() {
    let a = Matrix::square(vec![1, 2, 3, 4]).unwrap();
    let b = Matrix::square(vec![5, -6, 7, -8]).unwrap();
    let sum = a.clone().add(b.clone()).unwrap();
    assert_eq!(sum.sub(b).unwrap(), a);
}

#[test]
fn transpose_twice_restores() {
    let original = Matrix::from_vec(vec![1, 2, 3, 4, 5, 6], 3, 2).unwrap();
    let mut m = original.clone();
    m.transpose();
    assert_eq!(m.get_rows(), 2);
    assert_eq!(m.get_columns(), 3);
    assert_eq!(m.row_clone(1), vec![1, 3, 5]);
    m.transpose();
    assert_eq!(m, original);
}

#[test]
fn transpose_twice_restores_empty_shapes() {
    let mut zero = Matrix::<i32>::try_from_columns(vec![]).unwrap();
    assert_eq!(zero.get_rows(), 0);
    assert_eq!(zero.get_columns(), 0);
    zero.transpose();
    zero.transpose();
    assert_eq!(zero.get_rows(), 0);
    assert_eq!(zero.get_columns(), 0);

    let original = Matrix::try_from_rows(vec![Vec::<i32>::new(), Vec::new(), Vec::new()]).unwrap();
    assert_eq!(original.get_rows(), 3);
    assert_eq!(original.get_columns(), 0);
    let mut m = original.clone();
    m.transpose();
    assert_eq!(m.get_rows(), 0);
    assert_eq!(m.get_columns(), 3);
    m.transpose();
    assert_eq!(m, original);
}

#[test]
fn identity_times_vector_is_identity() {
    let vec = v(&[7, -3, 42]);
    let product = Matrix::identity(3).mul_vector(vec.clone()).unwrap();
    assert_eq!(product, vec);

    let empty = v(&[]);
    assert_eq!(Matrix::identity(0).mul_vector(empty.clone()).unwrap(), empty);
}

#[test]
fn embed_then_project_restores() {
    for elements in [vec![], vec![9], vec![1, 2, 3, 4, 5]] {
        let vec = Vector::from_vec(elements);
        let embedded = Matrix::from_vector(vec.clone());
        assert_eq!(embedded.get_columns(), 1);
        assert_eq!(Vector::try_from_matrix(embedded), Ok(vec));
    }
}

#[test]
fn vector_add_commutes_and_zero_extends() {
    let a = v(&[1, 2, 3]);
    let b = v(&[10, 20]);
    let left = a.add_ref(&b);
    let right = b.add_ref(&a);
    assert_eq!(left, right);
    assert_eq!(left.len(), 3);
    assert_eq!(left, v(&[11, 22, 3]));

    let c = v(&[1, -1]);
    let d = v(&[2, 2]);
    assert_eq!(c.add_ref(&d), d.add_ref(&c));

    assert_eq!(a.sub_ref(&b), v(&[-9, -18, 3]));
    assert_eq!(b.sub_ref(&a), v(&[9, 18, -3]));
}

#[test]
fn mismatched_matrix_arithmetic_yields_none() {
    let two_by_two = Matrix::square(vec![1, 2, 3, 4]).unwrap();
    let three_by_two = Matrix::from_vec(vec![1, 2, 3, 4, 5, 6], 3, 2).unwrap();
    let two_by_three = Matrix::from_vec(vec![1, 2, 3, 4, 5, 6], 2, 3).unwrap();
    assert_eq!(two_by_two.clone().add(three_by_two.clone()), None);
    assert_eq!(two_by_two.clone().sub(three_by_two.clone()), None);
    assert_eq!(three_by_two.clone().add(two_by_three.clone()), None);
    assert_eq!(two_by_three.sub(two_by_two), None);
}

#[test]
fn square_rows_and_display() {
    let m = Matrix::square(vec![1, 2, 3, 4]).unwrap();
    assert_eq!(m.row_clone(1), vec![1, 2]);
    assert_eq!(m.row_clone(2), vec![3, 4]);
    assert_eq!(m.display(), " _      _ \n|  1  2  |\n|_ 3  4 _|\n");
}

#[test]
fn from_vec_slices_rows() {
    let m = Matrix::from_vec(vec![1, 2, 3, 4, 5, 6], 3, 2).unwrap();
    assert_eq!(m.get_rows(), 3);
    assert_eq!(m.get_columns(), 2);
    assert_eq!(m.row_clone(1), vec![1, 2]);
    assert_eq!(m.row_clone(2), vec![3, 4]);
    assert_eq!(m.row_clone(3), vec![5, 6]);
    assert_eq!(m.column_clone(1), vec![1, 3, 5]);
    assert_eq!(m.column_clone(2), vec![2, 4, 6]);
}

#[test]
fn vector_display_edges() {
    assert_eq!(v(&[]).display(), "<>");
    assert_eq!(v(&[-12]).display(), "<-12>");
    assert_eq!(v(&[100, -250, 0]).display(), "<100, -250, 0>");
}

#[test]
fn square_rejects_non_square_lengths() {
    let flat = Matrix::from_vec(vec![1, 2, 3], 1, 3).unwrap();
    assert_eq!(flat.get_rows(), 1);
    let err = Matrix::square(vec![1, 2, 3]).unwrap_err();
    assert_eq!(err, ShapeError::NotSquare { actual: 3 });
    assert_eq!(
        err.text(),
        "A square matrix can only be made from a Vec whose length is a perfect square, received length 3"
    );
}

#[test]
fn from_vec_rejects_wrong_counts() {
    let err = Matrix::from_vec(vec![1, 2, 3], 2, 2).unwrap_err();
    assert_eq!(
        err,
        ShapeError::WrongCount {
            rows: 2,
            columns: 2,
            actual: 3
        }
    );
    assert_eq!(
        err.text(),
        "A 2x2 matrix must have 4 elements, received Vec with 3 elements"
    );
}

#[test]
fn jagged_lists_are_rejected() {
    let err = Matrix::try_from_columns(vec![
        Vector::from_vec(vec![1]),
        Vector::from_vec(vec![1, 2]),
    ])
    .unwrap_err();
    assert_eq!(err, ShapeError::JaggedShape);
    assert_eq!(err.text(), "Cannot make Matrix from a jagged Vec");
    assert_eq!(
        Matrix::try_from_rows(vec![vec![1, 2], vec![3]]).unwrap_err(),
        ShapeError::JaggedShape
    );
}

#[test]
fn try_from_rows_orients_rows() {
    let m = Matrix::try_from_rows(vec![vec![1, 2], vec![3, 4], vec![5, 6]]).unwrap();
    assert_eq!(m, Matrix::from_vec(vec![1, 2, 3, 4, 5, 6], 3, 2).unwrap());
}

#[test]
fn try_from_columns_keeps_columns() {
    let m = Matrix::try_from_columns(vec![Vector::from_vec(vec![1, 2, 3])]).unwrap();
    assert_eq!(m.get_rows(), 3);
    assert_eq!(m.get_columns(), 1);
    assert_eq!(m.column_clone(1), vec![1, 2, 3]);
}

#[test]
fn matrix_vector_product() {
    let m = Matrix::square(vec![1, 2, 3, 4]).unwrap();
    assert_eq!(m.mul_vector(v(&[5, 6])).unwrap(), v(&[17, 39]));

    let mismatched = Matrix::square(vec![1, 2, 3, 4]).unwrap();
    assert_eq!(mismatched.mul_vector(v(&[1, 2, 3])), None);

    let no_rows = Matrix::<i32>::try_from_columns(vec![]).unwrap();
    assert_eq!(no_rows.mul_vector(v(&[])).unwrap(), v(&[]));
}

#[test]
fn matrix_negation_and_scaling() {
    let m = Matrix::square(vec![1, -2, 3, -4]).unwrap();
    assert_eq!(m.clone().neg(), Matrix::square(vec![-1, 2, -3, 4]).unwrap());
    assert_eq!(m.mul(2), Matrix::square(vec![2, -4, 6, -8]).unwrap());
}

#[test]
fn element_and_row_accessors() {
    let mut m = Matrix::from_vec(vec![1, 2, 3, 4, 5, 6], 3, 2).unwrap();
    assert!(!m.is_square());
    assert_eq!(*m.index((2, 3)), 6);
    m.index_mut((1, 1), 9);
    assert_eq!(*m.index((1, 1)), 9);
    assert_eq!(m.row(1), v(&[9, 2]));
    assert_eq!(m.column(2), &v(&[2, 4, 6]));
    m.row_mut(2, &v(&[30, 40]));
    assert_eq!(m.row_clone(2), vec![30, 40]);
    m.column_mut(1, &v(&[7, 8, 9]));
    assert_eq!(m.column_clone(1), vec![7, 8, 9]);
}

#[test]
fn matrix_display_single_row_and_empty() {
    let empty = Matrix::<i32>::try_from_columns(vec![]).unwrap();
    assert_eq!(empty.display(), "[]");
    let row = Matrix::from_vec(vec![1, 2, 3], 1, 3).unwrap();
    assert_eq!(row.display(), "[ 1  2  3 ]");
    let no_columns = Matrix::<i32>::try_from_rows(vec![vec![], vec![]]).unwrap();
    assert_eq!(no_columns.display(), " __ \n|  |\n|__|\n");
}

#[test]
fn matrix_display_mixed_widths() {
    let m = Matrix::square(vec![1, 22, 333, 4]).unwrap();
    assert_eq!(m.display(), " _         _ \n|   1   22  |\n|_ 333  4  _|\n");
}

#[test]
fn wrapping_scalar_arithmetic() {
    assert_eq!(Numeric::add(i32::MAX, 1), i32::MIN);
    assert_eq!(Numeric::sub(i32::MIN, 1), i32::MAX);
    assert_eq!(Numeric::neg(i32::MIN), i32::MIN);
    assert_eq!(Numeric::mul(1i32 << 16, 1 << 16), 0);
    assert_eq!(Numeric::mul(1i32 << 16, 1 << 15), i32::MIN);
    assert_eq!(i32::zero(), 0);
    assert_eq!(i32::one(), 1);
}

#[test]
fn scalar_text_renders_decimals() {
    assert_eq!(0i32.text(), "0");
    assert_eq!((-5i32).text(), "-5");
    assert_eq!(1234567890i32.text(), "1234567890");
    assert_eq!(i32::MIN.text(), "-2147483648");
}

#[test]
fn point_arithmetic_and_display() {
    let a = Point { x: 1, y: 2 };
    let b = Point { x: 30, y: -40 };
    assert_eq!(a.add(b), Point { x: 31, y: -38 });
    assert_eq!(a.sub(b), Point { x: -29, y: 42 });
    assert_eq!(b.mul(2), Point { x: 60, y: -80 });
    assert_eq!(a.display(), "(1, 2)");
}
