use punytracer::point::Point;
use punytracer::scalar::Scalar;
use punytracer::tuple::Tuple;

fn s(u: i128) -> Scalar {
    Scalar::from_units(u)
}

fn si(v: i64) -> Scalar {
    Scalar::from_int(v)
}

#[test]
fn point_has_w_value_0() {
    let point = Point::zero();
    assert_eq!(point.w(), si(1));
}

#[test]
fn negating_a_point() {
    // Given
    let p = Point::new(si(1), si(-2), si(3));

    // Then
    assert_eq!(Point::new(si(-1), si(2), si(-3)), p.neg());
}

#[test]
fn multiplying_a_point_by_a_scalar() {
    // Given
    let p = Point::new(si(1), si(-2), si(3));
    let three_and_a_half = s(35_000_000);
    let expected = Point::new(s(35_000_000), si(-7), s(105_000_000));

    // Then
    assert_eq!(expected, p.clone().mul(three_and_a_half));
    assert_eq!(expected, three_and_a_half.mul_point(p));
}

#[test]
fn dividing_a_point_by_a_scalar() {
    // Given
    let p = Point::new(si(1), si(-2), si(3));

    // Then
    assert_eq!(Point::new(s(5_000_000), si(-1), s(15_000_000)), p.div(si(2)));
}
