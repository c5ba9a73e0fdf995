use luma::matrix::Matrix;
use luma::vector::Vector;

#[test]
fn vector_test_add() {
    let a = Vector::new([1, 2, 3]);
    let b = Vector::new([4, 5, 6]);

    assert_eq!(a + b, Vector::new([5, 7, 9]));
}

#[test]
fn test_sub() {
    let a = Vector::new([1, 2, 3]);
    let b = Vector::new([4, 5, 6]);

    assert_eq!(a - b, Vector::new([-3, -3, -3]));
}

#[test]
fn vector_test_mul_scalar() {
    let a = Vector::new([1, 2, 3]);

    assert_eq!(a * 2, Vector::new([2, 4, 6]));
    assert_eq!(2 * a, Vector::new([2, 4, 6]));
}

#[test]
fn test_index() {
    let a = Vector::new([1, 2, 3]);

    assert_eq!(a[0], 1);
    assert_eq!(a[1], 2);
    assert_eq!(a[2], 3);
}

#[test]
fn test_dot() {
    let a = Vector::new([1, 2, 3]);
    let b = Vector::new([4, 5, 6]);

    assert_eq!(a.dot(b), 4 + 10 + 18);
}

#[test]
fn test_cross() {
    let x = Vector::new([1, 0, 0]);
    let y = Vector::new([0, 1, 0]);

    assert_eq!(x.cross(&y), Vector::new([0, 0, 1]));
}

#[test]
fn test_zero() {
    assert_eq!(Vector::<i32, 3>::zero(), Vector::new([0, 0, 0]));
}

#[test]
fn test_into_array() {
    let v = Vector::new([1, 2, 3]);
    let a: [i32; 3] = v.into();

    assert_eq!(a, [1, 2, 3]);
}

#[test]
fn test_into_column_matrix() {
    let v = Vector::new([1, 2, 3]);
    let m: Matrix<i32, 3, 1> = v.into();

    assert_eq!(m, Matrix::new([[1], [2], [3]]));
}

#[test]
fn test_to_row_matrix() {
    let v = Vector::new([1, 2, 3]);

    assert_eq!(v.to_row_matrix(), Matrix::new([[1, 2, 3]]));
}

#[test]
fn test_matrix_times_vector() {
    let m = Matrix::new([[1, 2, 3], [4, 5, 6]]);
    let v = Vector::new([1, 0, 1]);

    let result = m * Matrix::from(v);

    assert_eq!(result, Matrix::new([[4], [10]]));
}
