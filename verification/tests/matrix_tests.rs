use physics_tinkering::matrix::Det;
use physics_tinkering::matrix::Matrix;
use physics_tinkering::matrix::MatrixError;
use physics_tinkering::matrix::get_cofactor;

#[test]
fn test_matrix_det_identity() {
    let m1 = Matrix::from_vec(vec![vec![1, 0, 0], vec![0, 1, 0], vec![0, 0, 1]]);
    assert_eq!(Ok(1), m1.det());
}

#[test]
fn test_matrix_det_values() {
    // 2x2: ad - bc
    let m = Matrix::from_vec(vec![vec![3, 7], vec![1, -4]]);
    assert_eq!(Ok(3 * -4 - 7 * 1), m.det());
    // 3x3 with a known determinant
    let m3 = Matrix::from_vec(vec![vec![6, 1, 1], vec![4, -2, 5], vec![2, 8, 7]]);
    assert_eq!(Ok(-306), m3.det());
    // 1x1: the sole element
    let m1 = Matrix::from_vec(vec![vec![42]]);
    assert_eq!(Ok(42), m1.det());
}

#[test]
fn test_matrix_det_rejects_illegal() {
    // rows of unequal length are rejected before any computation
    let ragged = Matrix::from_vec(vec![vec![1, 0], vec![0, 1, 0], vec![0, 0, 1]]);
    assert!(!ragged.is_legal());
    assert_eq!(Err(MatrixError::NotLegal), ragged.det());
}

#[test]
fn test_matrix_det_rejects_non_square() {
    let wide = Matrix::from_vec(vec![vec![1, 2, 3], vec![4, 5, 6]]);
    assert!(wide.is_legal());
    assert!(!wide.is_square());
    assert_eq!(Err(MatrixError::NotSquare), wide.det());
}

#[test]
fn test_matrix_validity() {
    let m1 = Matrix::from_vec(vec![vec![1, 0, 0], vec![0, 1, 0], vec![0, 0, 1]]);
    let m2 = Matrix::from_vec(vec![vec![1, 0], vec![0, 1, 0], vec![0, 0, 1]]);
    assert_eq!(m1.is_legal(), true);
    assert_eq!(m2.is_legal(), false);
    // a fresh matrix holds one row of zero columns: legal, not square
    let fresh = Matrix::new();
    assert!(fresh.is_legal());
    assert!(!fresh.is_square());
    assert_eq!(Err(MatrixError::NotSquare), fresh.det());
    // a matrix with no rows at all is legal and square
    let empty = Matrix::from_vec(vec![]);
    assert!(empty.is_legal());
    assert!(empty.is_square());
}

#[test]
fn test_matrix_square() {
    let m1 = Matrix::from_vec(vec![vec![1, 0], vec![0, 1]]);
    assert!(m1.is_legal() && m1.is_square());
    let m2 = Matrix::from_vec(vec![vec![1, 0, 5], vec![0, 1, 5]]);
    assert!(m2.is_legal() && !m2.is_square());
}

#[test]
fn test_get_cofactor() {
    let m = Matrix::from_vec(vec![vec![1, 2, 3], vec![4, 5, 6], vec![7, 8, 9]]);
    // deleting row 0 and column 1 leaves [[4, 6], [7, 9]]
    let minor = get_cofactor(&m, 0, 1);
    assert_eq!(2, minor.rows());
    assert_eq!(4, minor.get(0, 0));
    assert_eq!(6, minor.get(0, 1));
    assert_eq!(7, minor.get(1, 0));
    assert_eq!(9, minor.get(1, 1));
}
