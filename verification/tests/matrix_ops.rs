use punytracer::approx::ApproxEq;
use punytracer::matrix::{Matrix2, Matrix3, Matrix4, MatrixError};
use punytracer::point::Point;
use punytracer::scalar::Scalar;
use punytracer::tuple::Tuple;

fn s(u: i128) -> Scalar {
    Scalar::from_units(u)
}

fn si(v: i64) -> Scalar {
    Scalar::from_int(v)
}

fn row(vals: &[i64]) -> Vec<Scalar> {
    vals.iter().map(|&v| si(v)).collect()
}

fn m2(rows: [[i64; 2]; 2]) -> Matrix2 {
    Matrix2::from(rows.iter().map(|r| row(r)).collect())
}

fn m3(rows: [[i64; 3]; 3]) -> Matrix3 {
    Matrix3::from(rows.iter().map(|r| row(r)).collect())
}

fn m4(rows: [[i64; 4]; 4]) -> Matrix4 {
    Matrix4::from(rows.iter().map(|r| row(r)).collect())
}

#[test]
fn create_matrix_2() {
    // Given
    let mut matrix = Matrix2::new();

    matrix.set(0, 0, si(-3));
    matrix.set(0, 1, si(5));
    matrix.set(1, 0, si(1));
    matrix.set(1, 1, si(-2));

    // Then
    assert_eq!(matrix.at(0, 0), si(-3));
    assert_eq!(matrix.at(0, 1), si(5));
    assert_eq!(matrix.at(1, 0), si(1));
    assert_eq!(matrix.at(1, 1), si(-2));
}

#[test]
fn create_matrix_3() {
    // Given
    let mut matrix = Matrix3::new();

    matrix.set(0, 0, si(-3));
    matrix.set(0, 1, si(5));
    matrix.set(1, 0, si(1));
    matrix.set(1, 1, si(-2));
    matrix.set(1, 2, si(-7));
    matrix.set(2, 1, si(1));
    matrix.set(2, 2, si(1));

    // Then
    assert_eq!(matrix.at(0, 0), si(-3));
    assert_eq!(matrix.at(0, 1), si(5));
    assert_eq!(matrix.at(1, 0), si(1));
    assert_eq!(matrix.at(1, 1), si(-2));
    assert_eq!(matrix.at(1, 2), si(-7));
    assert_eq!(matrix.at(2, 1), si(1));
    assert_eq!(matrix.at(2, 2), si(1));
}

#[test]
fn create_matrix_4() {
    // Given
    let mut matrix = Matrix4::new();

    matrix.set(0, 0, si(1));
    matrix.set(0, 3, si(4));
    matrix.set(1, 0, s(55_000_000));
    matrix.set(1, 2, s(75_000_000));
    matrix.set(2, 2, si(11));
    matrix.set(3, 0, s(135_000_000));
    matrix.set(3, 2, s(155_000_000));

    // Then
    assert_eq!(matrix.at(0, 0), si(1));
    assert_eq!(matrix.at(0, 3), si(4));
    assert_eq!(matrix.at(1, 0), s(55_000_000));
    assert_eq!(matrix.at(1, 2), s(75_000_000));
    assert_eq!(matrix.at(2, 2), si(11));
    assert_eq!(matrix.at(3, 0), s(135_000_000));
    assert_eq!(matrix.at(3, 2), s(155_000_000));
}

#[test]
fn matrix_equality_with_same_matrix() {
    // Given
    let m1 = m4([[1, 2, 3, 4], [5, 6, 7, 8], [9, 8, 7, 6], [5, 4, 3, 2]]);
    let m2 = m4([[1, 2, 3, 4], [5, 6, 7, 8], [9, 8, 7, 6], [5, 4, 3, 2]]);

    // Then
    assert_eq!(m1, m2);
}

#[test]
fn matrix_equality_with_different_matrix() {
    // Given
    let m1 = m4([[1, 2, 3, 4], [5, 6, 7, 8], [9, 8, 7, 6], [5, 4, 3, 2]]);
    let m2 = m4([[1, 2, 3, 5], [5, 6, 7, 8], [9, 8, 7, 6], [5, 4, 3, 2]]);

    // Then
    assert_ne!(m1, m2);
}

#[test]
fn matrix_multiplication() {
    // Given
    let m1 = m4([[1, 2, 3, 4], [5, 6, 7, 8], [9, 8, 7, 6], [5, 4, 3, 2]]);
    let m2 = m4([[-2, 1, 2, 3], [3, 2, 1, -1], [4, 3, 6, 5], [1, 2, 7, 8]]);

    // Then
    let res = m4([[20, 22, 50, 48], [44, 54, 114, 108], [40, 58, 110, 102], [16, 26, 46, 42]]);

    assert_eq!(m1.mul(&m2), res);
}

#[test]
fn matrix_multiplied_by_a_tuple() {
    // Given
    let m = m4([[1, 2, 3, 4], [2, 4, 4, 2], [8, 6, 4, 1], [0, 0, 0, 1]]);
    let t = Point::new(si(1), si(2), si(3));

    // Then
    assert_eq!(m.mul_tuple(&t), Point::new(si(18), si(24), si(33)));
}

#[test]
fn matrix_multiplied_by_identity() {
    // Given
    let m = m4([[1, 2, 3, 4], [2, 4, 4, 2], [8, 6, 4, 1], [0, 0, 0, 1]]);

    // Then
    assert_eq!(m.mul(&Matrix4::identity()), m);
}

#[test]
fn identity_matrix_multiplied_by_tuple() {
    // Given
    let p = Point::new(si(1), si(5), si(3));

    // Then
    assert_eq!(Matrix4::identity().mul_tuple(&p), p);
}

#[test]
fn transposing_a_matrix() {
    // Given
    let matrix = m4([[0, 9, 3, 0], [9, 8, 0, 8], [1, 8, 5, 3], [0, 0, 5, 8]]);
    let transposed = m4([[0, 9, 1, 0], [9, 8, 8, 0], [3, 0, 5, 5], [0, 8, 3, 8]]);

    // Then
    assert_eq!(matrix.transpose(), transposed);
}

#[test]
fn transposing_identity_matrix() {
    assert_eq!(Matrix4::identity().transpose(), Matrix4::identity());
}

#[test]
fn determinant_of_2x2_matrix() {
    // Given
    let m = m2([[1, 5], [-3, 2]]);

    // Then
    assert_eq!(m.determinant(), si(17));
}

#[test]
fn submatrix_of_3x3_matrix() {
    // Given
    let matrix = m3([[1, 5, 0], [-3, 2, 7], [0, 6, -3]]);
    let sub = m2([[-3, 2], [0, 6]]);

    assert_eq!(matrix.submatrix(0, 2), sub);
}

#[test]
fn submatrix_of_4x4_matrix() {
    // Given
    let matrix = m4([[-6, 1, 1, 6], [-8, 5, 8, 6], [-1, 0, 8, 2], [-7, 1, -1, 1]]);
    let sub = m3([[-6, 1, 6], [-8, 8, 6], [-7, -1, 1]]);

    // Then
    assert_eq!(matrix.submatrix(2, 1), sub);
}

#[test]
fn minor_of_3x3_matrix() {
    // Given
    let m = m3([[3, 5, 0], [2, -1, -7], [6, -1, 5]]);
    let sub = m.submatrix(1, 0);

    assert_eq!(sub.determinant(), si(25));
    assert_eq!(m.minor(1, 0), si(25));
}

#[test]
fn cofactor_of_3x3_matrix() {
    // Given
    let m = m3([[3, 5, 0], [2, -1, -7], [6, -1, 5]]);

    // Then
    assert_eq!(m.minor(0, 0), si(-12));
    assert_eq!(m.cofactor(0, 0), si(-12));
    assert_eq!(m.minor(1, 0), si(25));
    assert_eq!(m.cofactor(1, 0), si(-25));
}

#[test]
fn calculating_determinant_of_3x3_matrix() {
    // Given
    let m = m3([[1, 2, 6], [-5, 8, -4], [2, 6, 4]]);

    // Then
    assert_eq!(m.cofactor(0, 0), si(56));
    assert_eq!(m.cofactor(0, 1), si(12));
    assert_eq!(m.cofactor(0, 2), si(-46));
    assert_eq!(m.determinant(), si(-196));
}

#[test]
fn calculating_determinant_of_4x4_matrix() {
    // Given
    let m = m4([[-2, -8, 3, 5], [-3, 1, 7, 3], [1, 2, -9, 6], [-6, 7, 7, -9]]);

    // Then
    assert_eq!(m.cofactor(0, 0), si(690));
    assert_eq!(m.cofactor(0, 1), si(447));
    assert_eq!(m.cofactor(0, 2), si(210));
    assert_eq!(m.cofactor(0, 3), si(51));
    assert_eq!(m.determinant(), si(-4071));
}

#[test]
fn invertible_matrix_can_invert() {
    // Given
    let m = m4([[6, 4, 4, 4], [5, 5, 7, 6], [4, -9, 3, -7], [9, 1, 7, -6]]);

    // Then
    assert_eq!(m.determinant(), si(-2120));
    assert_eq!(m.is_invertible(), true);
}

#[test]
fn invertible_matrix_cannot_invert() {
    // Given
    let m = m4([[-4, 2, -2, -3], [9, 6, 2, 6], [0, -5, 1, -5], [0, 0, 0, 0]]);

    // Then
    assert_eq!(m.determinant(), si(0));
    assert_eq!(m.is_invertible(), false);
}

#[test]
fn inverse_of_a_matrix() {
    // Given
    let m1 = m4([[-5, 2, 6, -8], [1, -5, 1, 8], [7, 7, -6, -7], [1, -3, 7, 4]]);
    let m2 = m1.invert().unwrap();

    // Then
    assert!(m2.at(3, 2).approx_eq(si(-160).div(si(532))));
    assert_eq!(m1.determinant(), si(532));
    assert_eq!(m1.cofactor(2, 3), si(-160));
    let expected = Matrix4::from(vec![
        vec![s(2_180_500), s(4_511_300), s(2_406_000), s(-451_100)],
        vec![s(-8_082_700), s(-14_567_700), s(-4_436_100), s(5_206_800)],
        vec![s(-789_500), s(-2_236_800), s(-526_300), s(1_973_700)],
        vec![s(-5_225_600), s(-8_139_100), s(-3_007_500), s(3_063_900)],
    ]);
    assert_eq!(m2, expected);
}

#[test]
fn inverse_of_another_matrix() {
    // Given
    let matrix = m4([[8, -5, 9, 2], [7, 5, 6, 1], [-6, 0, 9, 6], [-3, 0, -9, -4]]);

    // Then
    let expected = Matrix4::from(vec![
        vec![s(-1_538_500), s(-1_538_500), s(-2_820_500), s(-5_384_600)],
        vec![s(-769_200), s(1_230_800), s(256_400), s(307_700)],
        vec![s(3_589_700), s(3_589_700), s(4_359_000), s(9_230_800)],
        vec![s(-6_923_100), s(-6_923_100), s(-7_692_300), s(-19_230_800)],
    ]);
    assert_eq!(matrix.invert().unwrap(), expected);
}

#[test]
fn inverse_of_a_third_matrix() {
    // Given
    let matrix = m4([[9, 3, 0, 9], [-5, -2, -6, -3], [-4, 9, 6, 4], [-7, 6, 6, 2]]);

    // Then
    let expected = Matrix4::from(vec![
        vec![s(-407_400), s(-777_800), s(1_444_400), s(-2_222_200)],
        vec![s(-777_800), s(333_300), s(3_666_700), s(-3_333_300)],
        vec![s(-290_100), s(-1_463_000), s(-1_092_600), s(1_296_300)],
        vec![s(1_777_800), s(666_700), s(-2_666_700), s(3_333_300)],
    ]);
    assert_eq!(matrix.invert().unwrap(), expected);
}

#[test]
fn inverting_a_singular_matrix_reports_the_error() {
    // Given: the last row is all zero, so the determinant is zero
    let m = m4([[-4, 2, -2, -3], [9, 6, 2, 6], [0, -5, 1, -5], [0, 0, 0, 0]]);

    // Then
    assert!(matches!(m.invert(), Err(MatrixError::NotInvertible)));
}

#[test]
fn inverse_round_trips() {
    // Given
    let m = m4([[-5, 2, 6, -8], [1, -5, 1, 8], [7, 7, -6, -7], [1, -3, 7, 4]]);

    // Then: inverting twice lands loosely back on the original, and the
    // product with the inverse is loosely the identity
    let inv = m.invert().unwrap();
    assert_eq!(inv.invert().unwrap(), m);
    assert_eq!(m.mul(&inv), Matrix4::identity());
}

#[test]
fn transpose_twice_returns_the_matrix() {
    let m = m4([[0, 9, 3, 0], [9, 8, 0, 8], [1, 8, 5, 3], [0, 0, 5, 8]]);
    assert_eq!(m.transpose().transpose(), m);

    let m3x3 = m3([[1, 5, 0], [-3, 2, 7], [0, 6, -3]]);
    assert_eq!(m3x3.transpose().transpose(), m3x3);
}

#[test]
fn smaller_matrices_multiplied_by_identity() {
    let a = m2([[1, 5], [-3, 2]]);
    assert_eq!(a.mul(&Matrix2::identity()), a);

    let b = m3([[3, 5, 0], [2, -1, -7], [6, -1, 5]]);
    assert_eq!(b.mul(&Matrix3::identity()), b);
}
