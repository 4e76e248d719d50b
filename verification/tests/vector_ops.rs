use punytracer::approx::ApproxEq;
use punytracer::scalar::Scalar;
use punytracer::tuple::Tuple;
use punytracer::vector::Vector;

fn s(u: i128) -> Scalar {
    Scalar::from_units(u)
}

fn si(v: i64) -> Scalar {
    Scalar::from_int(v)
}

#[test]
fn vector_has_w_value_0() {
    let vector = Vector::zero();
    assert_eq!(vector.w(), si(0));
}

#[test]
fn subtracting_vector_from_zero_vector() {
    // Given
    let v = Vector::new(si(1), si(-2), si(3));

    // Then
    assert_eq!(Vector::new(si(-1), si(2), si(-3)), Vector::zero().sub(v));
}

#[test]
fn negating_a_vector() {
    // Given
    let v = Vector::new(si(1), si(-2), si(3));

    // Then
    assert_eq!(Vector::new(si(-1), si(2), si(-3)), v.neg());
}

#[test]
fn multiplying_a_vector_by_a_scalar() {
    // Given
    let v = Vector::new(si(1), si(-2), si(3));
    let three_and_a_half = s(35_000_000);
    let expected = Vector::new(s(35_000_000), si(-7), s(105_000_000));

    // Then
    assert_eq!(expected, v.clone().mul(three_and_a_half));
    assert_eq!(expected, three_and_a_half.mul_vector(v));
}

#[test]
fn dividing_a_vector_by_a_scalar() {
    // Given
    let v = Vector::new(si(1), si(-2), si(3));

    // Then
    assert_eq!(Vector::new(s(5_000_000), si(-1), s(15_000_000)), v.div(si(2)));
}

#[test]
fn computing_magnitude_of_vector_1() {
    // Given
    let v = Vector::new(si(1), si(0), si(0));

    // Then
    assert_eq!(v.magnitude(), si(1));
}

#[test]
fn computing_magnitude_of_vector_2() {
    // Given
    let v = Vector::new(si(0), si(1), si(0));

    // Then
    assert_eq!(v.magnitude(), si(1));
}

#[test]
fn computing_magnitude_of_vector_3() {
    // Given
    let v = Vector::new(si(0), si(0), si(1));

    // Then
    assert_eq!(v.magnitude(), si(1));
}

#[test]
fn computing_magnitude_of_vector_4() {
    // Given
    let v = Vector::new(si(1), si(2), si(3));

    // Then: the square root of 14, rounded down onto the scalar grid
    assert_eq!(v.magnitude(), s(37_416_573));
}

#[test]
fn computing_magnitude_of_vector_5() {
    // Given
    let v = Vector::new(si(-1), si(-2), si(-3));

    // Then: the square root of 14, rounded down onto the scalar grid
    assert_eq!(v.magnitude(), s(37_416_573));
}

#[test]
fn normalizing_a_vector_1() {
    // Given
    let v = Vector::new(si(4), si(0), si(0));

    // Then
    assert_eq!(Vector::new(si(1), si(0), si(0)), v.normalize());
}

#[test]
fn normalizing_a_vector_2() {
    // Given
    let v = Vector::new(si(1), si(2), si(3));

    // Then
    assert_eq!(Vector::new(s(2_672_600), s(5_345_200), s(8_017_800)), v.normalize());
    //                          1/sqrt(14),    2/sqrt(14),    3/sqrt(14)
}

#[test]
fn magnitude_of_normalized_vector() {
    // Given
    let v = Vector::new(si(1), si(2), si(3));

    // Then: rounding each component toward zero loses one grid step of
    // magnitude, so the norm is loosely, not exactly, 1.0
    assert_eq!(v.normalize().magnitude(), s(9_999_999));
    assert!(v.normalize().magnitude().approx_eq_low_precision(si(1)));
}

#[test]
fn dot_product_of_two_vectors() {
    // Given
    let v1 = Vector::new(si(1), si(2), si(3));
    let v2 = Vector::new(si(2), si(3), si(4));

    // Then
    assert_eq!(v1.dot(v2), si(20));
}

#[test]
fn cross_product_of_two_vectors() {
    // Given
    let v1 = Vector::new(si(1), si(2), si(3));
    let v2 = Vector::new(si(2), si(3), si(4));

    // Then
    assert_eq!(v1.cross(v2), Vector::new(si(-1), si(2), si(-1)));
    assert_eq!(v2.cross(v1), Vector::new(si(1), si(-2), si(1)));
}
