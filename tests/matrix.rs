use renderer::equivalent::Equivalence;
use renderer::matrix::{submatrix3, submatrix4, transpose4};

#[test]
fn submatrix_of_mat3_is_a_mat2() {
    let m = [[1.0, 5.0, 0.0], [-3.0, 2.0, 7.0], [0.0, 6.0, -3.0]];

    assert_eq!(submatrix3(&m, 0, 2), [[-3.0, 2.0], [0.0, 6.0]]);
}

#[test]
fn submatrix_of_mat4_is_a_mat3() {
    let m = [
        [-6.0, 1.0, 1.0, 6.0],
        [-8.0, 5.0, 8.0, 6.0],
        [-1.0, 0.0, 8.0, 2.0],
        [-7.0, 1.0, -1.0, 1.0],
    ];

    assert_eq!(
        submatrix4(&m, 2, 1),
        [[-6.0, 1.0, 6.0], [-8.0, 8.0, 6.0], [-7.0, -1.0, 1.0]]
    );
}

#[test]
fn submatrix_of_the_last_row_and_column() {
    let m = [[1, 2, 3, 4], [5, 6, 7, 8], [9, 10, 11, 12], [13, 14, 15, 16]];

    assert_eq!(submatrix4(&m, 3, 3), [[1, 2, 3], [5, 6, 7], [9, 10, 11]]);
    assert_eq!(submatrix4(&m, 0, 0), [[6, 7, 8], [10, 11, 12], [14, 15, 16]]);
}

#[test]
fn transposing_a_matrix() {
    let m = [
        [0.0, 9., 3., 0.],
        [9., 8., 0., 8.],
        [1., 8., 5., 3.],
        [0., 0., 5., 8.],
    ];

    let expected = [
        [0.0, 9., 1., 0.],
        [9., 8., 8., 0.],
        [3., 0., 5., 5.],
        [0., 8., 3., 8.],
    ];

    assert_eq!(transpose4(&m), expected);
}

#[test]
fn transpose_identity_matrix() {
    let identity = [
        [1., 0., 0., 0.],
        [0., 1., 0., 0.],
        [0., 0., 1., 0.],
        [0., 0., 0., 1.],
    ];

    assert_eq!(identity, transpose4(&identity));
}

#[test]
fn transposing_twice_gives_the_matrix_back() {
    let m = [[1, 2, 3, 4], [5, 6, 7, 8], [9, 10, 11, 12], [13, 14, 15, 16]];

    assert_eq!(transpose4(&transpose4(&m)), m);
}

#[derive(Clone, Copy)]
struct Tolerant(i32);

impl Equivalence<Tolerant> for Tolerant {
    fn equivalent(&self, other: Tolerant) -> bool {
        (self.0 - other.0).abs() <= 1
    }
}

#[test]
fn not_equivalent_negates_equivalent() {
    assert!(Tolerant(3).equivalent(Tolerant(4)));
    assert!(!Tolerant(3).not_equivalent(Tolerant(4)));
    assert!(Tolerant(3).not_equivalent(Tolerant(5)));
}
