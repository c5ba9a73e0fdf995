use luma::matrix::Matrix;
use luma::vector::Vector;

#[test]
fn matrix_test_add() {
    let a = Matrix::new([[1, 2], [3, 4]]);
    let b = Matrix::new([[5, 3], [7, 7]]);

    let c = a + b;

    assert_eq!(c, Matrix::new([[6, 5], [10, 11]]));
}

#[test]
fn test_rows_columns() {
    // Non-square on purpose: it catches a rows/columns mixup that a square
    // matrix would hide.
    let m = Matrix::new([[1, 2, 3], [4, 5, 6]]);

    assert_eq!(m.rows(), [Vector::new([1, 2, 3]), Vector::new([4, 5, 6])]);
    assert_eq!(
        m.columns(),
        [
            Vector::new([1, 4]),
            Vector::new([2, 5]),
            Vector::new([3, 6])
        ]
    );
}

#[test]
fn test_from_rows_columns() {
    let rows = [Vector::new([1, 2, 3]), Vector::new([4, 5, 6])];
    let columns = [
        Vector::new([1, 4]),
        Vector::new([2, 5]),
        Vector::new([3, 6]),
    ];

    let expected = Matrix::new([[1, 2, 3], [4, 5, 6]]);

    assert_eq!(Matrix::from_rows(rows), expected);
    assert_eq!(Matrix::from_columns(columns), expected);
}

#[test]
fn test_id() {
    assert_eq!(Matrix::id(), Matrix::new([[1, 0], [0, 1]]));
    assert_eq!(Matrix::id(), Matrix::new([[1, 0, 0], [0, 1, 0], [0, 0, 1]]));
    assert_ne!(Matrix::id(), Matrix::new([[1, 0], [0, 0]]));
    assert_ne!(Matrix::<i32, 2, 2>::id(), Matrix::zero());
}

#[test]
fn test_is_identity() {
    assert!(Matrix::<i32, 2, 2>::id().is_identity());
    assert!(!Matrix::<i32, 2, 2>::zero().is_identity());
}

#[test]
fn test_is_diagonal() {
    assert!(Matrix::new([[1, 0], [0, 2]]).is_diagonal());
    assert!(!Matrix::new([[1, 1], [0, 2]]).is_diagonal());
}

#[test]
fn test_is_symmetric() {
    assert!(Matrix::new([[1, 2], [2, 1]]).is_symmetric());
    assert!(!Matrix::new([[1, 2], [3, 1]]).is_symmetric());
}

#[test]
fn test_is_orthogonal() {
    // A 90-degree rotation matrix is orthogonal
    assert!(Matrix::new([[0, -1], [1, 0]]).is_orthogonal());
    assert!(!Matrix::new([[1, 1], [0, 1]]).is_orthogonal());
}

#[test]
fn test_trace() {
    assert_eq!(Matrix::new([[1, 2], [3, 4]]).trace(), 5);
}

#[test]
fn matrix_test_mul_scalar() {
    let a = Matrix::new([[1, 2], [3, 4]]);

    assert_eq!(a * 2, Matrix::new([[2, 4], [6, 8]]));
}

#[test]
fn test_mul_matrix() {
    // Non-square on purpose: N, M, P are all different (2, 3, 4).
    let a = Matrix::new([[1, 2, 3], [4, 5, 6]]);
    let b = Matrix::new([[1, 0, 0, 1], [0, 1, 0, 1], [0, 0, 1, 1]]);

    let c = a * b;

    assert_eq!(c, Matrix::new([[1, 2, 3, 6], [4, 5, 6, 15]]));
}

#[test]
fn test_translation() {
    let t = Matrix::translation(34, 17, 82);

    assert_eq!(
        t,
        Matrix::new([[1, 0, 0, 34], [0, 1, 0, 17], [0, 0, 1, 82], [0, 0, 0, 1],])
    )
}
