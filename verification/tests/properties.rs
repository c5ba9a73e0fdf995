use luma::identity::{One, Zero};
use luma::matrix::{Axis, Matrix};
use luma::order::MinMax;
use luma::quaternion::Quaternion;
use luma::vector::Vector;

#[test]
fn zero_and_one_are_identities() {
    assert_eq!(5i32 + i32::zero(), 5);
    assert_eq!(-128i8 + i8::zero(), -128);
    assert_eq!(7i64 * i64::one(), 7);
    assert_eq!(u128::MAX * u128::one(), u128::MAX);
    assert_eq!(usize::zero(), 0);
    assert_eq!(isize::one(), 1);
}

#[test]
fn min_max_of_integers() {
    assert_eq!(MinMax::min(-3i32, 2), -3);
    assert_eq!(MinMax::max(-3i32, 2), 2);
    assert_eq!(MinMax::min(4i8, 4), 4);
    assert_eq!(MinMax::max(i64::MIN, i64::MAX), i64::MAX);
}

#[test]
fn vector_min_max_of_integers() {
    let a = Vector::new([1, 5, -2]);
    let b = Vector::new([3, 2, -7]);

    assert_eq!(a.min(b), Vector::new([1, 2, -7]));
    assert_eq!(a.max(b), Vector::new([3, 5, -2]));
}

#[test]
fn rows_and_from_rows_are_inverse() {
    let m = Matrix::new([[1, 2, 3], [4, 5, 6]]);
    assert_eq!(Matrix::from_rows(m.rows()), m);

    let rows = [Vector::new([7, 8]), Vector::new([9, 10]), Vector::new([11, 12])];
    assert_eq!(Matrix::from_rows(rows).rows(), rows);
}

#[test]
fn columns_and_from_columns_are_inverse() {
    let m = Matrix::new([[1, 2, 3], [4, 5, 6]]);
    assert_eq!(Matrix::from_columns(m.columns()), m);

    let columns = [Vector::new([7, 8, 9]), Vector::new([10, 11, 12])];
    assert_eq!(Matrix::from_columns(columns).columns(), columns);
}

#[test]
fn transpose_of_non_square() {
    let m = Matrix::new([[1, 2, 3], [4, 5, 6]]);

    assert_eq!(m.transpose(), Matrix::new([[1, 4], [2, 5], [3, 6]]));
    assert_eq!(m.transpose().transpose(), m);
}

#[test]
fn diagonal_scale_and_square() {
    assert_eq!(Matrix::<i32, 2, 3>::diagonal([4, 5]), Matrix::new([[4, 0, 0], [0, 5, 0]]));
    assert_eq!(Matrix::scale(Vector::new([2, 3, 4])), Matrix::new([[2, 0, 0], [0, 3, 0], [0, 0, 4]]));
    assert!(Matrix::<i32, 3, 3>::zero().is_square());
    assert!(!Matrix::<i32, 2, 3>::zero().is_square());
    assert!(Matrix::<i32, 2, 3>::id().is_identity());
    assert_eq!(Matrix::<i32, 2, 3>::id(), Matrix::new([[1, 0, 0], [0, 1, 0]]));
    assert!(Matrix::<i32, 3, 2>::zero().is_diagonal());
}

#[test]
fn trace_of_three_by_three() {
    assert_eq!(Matrix::new([[1, 2, 3], [4, 5, 6], [7, 8, 9]]).trace(), 15);
    assert_eq!(Matrix::<i32, 0, 0>::zero().trace(), 0);
}

#[test]
fn matrix_sub_and_index() {
    let a = Matrix::new([[5, 3], [7, 7]]);
    let b = Matrix::new([[1, 2], [3, 4]]);
    let c = a - b;

    assert_eq!(c, Matrix::new([[4, 1], [4, 3]]));
    assert_eq!(c[1], [4, 3]);
    assert_eq!(c[0][1], 1);
}

#[test]
fn row_vector_times_matrix() {
    let v = Vector::new([1, 2]);
    let m = Matrix::new([[1, 0, 2], [0, 1, 3]]);

    assert_eq!(v.to_row_matrix() * m, Matrix::new([[1, 2, 8]]));
}

#[test]
fn cross_of_general_vectors() {
    let a = Vector::new([1, 2, 3]);
    let b = Vector::new([4, 5, 6]);

    assert_eq!(a.cross(&b), Vector::new([-3, 6, -3]));
    assert_eq!(b.cross(&a), Vector::new([3, -6, 3]));
}

#[test]
fn negate_and_lerp() {
    let a = Vector::new([1, -2, 0]);
    assert_eq!(a.negate(), Vector::new([-1, 2, 0]));

    let from = Vector::new([0, 10]);
    let to = Vector::new([4, 2]);
    assert_eq!(from.lerp(to, 0), from);
    assert_eq!(from.lerp(to, 1), to);
    assert_eq!(from.lerp(to, 2), Vector::new([8, -6]));
}

#[test]
fn project_with_integer_division() {
    let a = Vector::new([3, 4]);
    let b = Vector::new([1, 0]);

    assert_eq!(a.project(b), Vector::new([3, 0]));
}

#[test]
fn dot_of_empty_vectors() {
    let a: Vector<i64, 0> = Vector::new([]);

    assert_eq!(a.dot(a), 0);
}

#[test]
fn quaternion_product_of_general_values() {
    let a = Quaternion::new(1, 2, 3, 4);
    let b = Quaternion::new(5, 6, 7, 8);

    assert_eq!(a * b, Quaternion::new(-60, 12, 30, 24));
    assert_eq!(b * a, Quaternion::new(-60, 20, 14, 32));
}

#[test]
fn small_integer_types() {
    let a = Vector::new([1i8, 2, 3]);
    assert_eq!(3i8 * a, Vector::new([3, 6, 9]));
    assert_eq!(a.dot(a), 14i8);

    let m = Matrix::new([[1i16, 2], [3, 4]]);
    assert_eq!(m * m, Matrix::new([[7, 10], [15, 22]]));
    assert_eq!(2i128 * Vector::new([5i128]), Vector::new([10]));
}

#[test]
fn axis_is_copy_and_comparable() {
    let a = Axis::Y;
    let b = a;
    assert_eq!(a, b);
    assert_ne!(Axis::X, Axis::Z);
}

#[test]
fn adding_zero_gives_back_the_value() {
    let v = Vector::new([3, -1, 7]);
    assert_eq!(v + Vector::zero(), v);

    let m = Matrix::new([[1, -2], [3, 4], [5, 6]]);
    assert_eq!(m + Matrix::zero(), m);
}

#[test]
fn identity_is_neutral_for_the_product() {
    let a = Matrix::new([[1, -2, 3], [4, 5, -6]]);

    assert_eq!(a * Matrix::<i32, 3, 3>::id(), a);
    assert_eq!(Matrix::<i32, 2, 2>::id() * a, a);
}

#[test]
fn quaternion_norm_is_multiplicative() {
    let norm = |w: i64, x: i64, y: i64, z: i64| w * w + x * x + y * y + z * z;
    let p = Quaternion::new(1i64, 2, 3, 4);
    let q = Quaternion::new(5i64, -6, 7, 8);

    assert_eq!(p * q, Quaternion::new(-36, 0, -18, 60));
    assert_eq!(norm(-36, 0, -18, 60), norm(1, 2, 3, 4) * norm(5, -6, 7, 8));
}

#[test]
fn cross_is_anticommutative_and_orthogonal() {
    let a = Vector::new([2, -3, 5]);
    let b = Vector::new([-1, 4, 7]);
    let c = a.cross(&b);

    assert_eq!(c, b.cross(&a).negate());
    assert_eq!(c.dot(a), 0);
    assert_eq!(c.dot(b), 0);

    // Right-handed: y x z = x and z x x = y.
    assert_eq!(Vector::new([0, 1, 0]).cross(&Vector::new([0, 0, 1])), Vector::new([1, 0, 0]));
    assert_eq!(Vector::new([0, 0, 1]).cross(&Vector::new([1, 0, 0])), Vector::new([0, 1, 0]));
}

#[test]
fn set_writes_one_entry() {
    let mut m = Matrix::<i32, 2, 3>::zero();
    m.set(1, 2, 9);
    m.set(0, 0, -4);

    assert_eq!(m, Matrix::new([[-4, 0, 0], [0, 0, 9]]));
    assert_eq!(m[1][2], 9);
}
