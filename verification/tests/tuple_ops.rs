use punytracer::point::Point;
use punytracer::scalar::Scalar;
use punytracer::tuple::Tuple;
use punytracer::vector::Vector;

fn si(v: i64) -> Scalar {
    Scalar::from_int(v)
}

#[test]
fn adding_two_tuples() {
    // Given
    let a = Point::new(si(3), si(-2), si(5));
    let b = Vector::new(si(-2), si(3), si(1));

    // Then
    assert_eq!(Point::new(si(1), si(1), si(6)), a.add(b));
}

#[test]
fn subtracting_two_points() {
    // Given
    let p1 = Point::new(si(3), si(2), si(1));
    let p2 = Point::new(si(5), si(6), si(7));

    // Then
    assert_eq!(Vector::new(si(-2), si(-4), si(-6)), p1.sub(p2));
}

#[test]
fn subtracting_vector_from_point() {
    // Given
    let p = Point::new(si(3), si(2), si(1));
    let v = Vector::new(si(5), si(6), si(7));

    // Then
    assert_eq!(Point::new(si(-2), si(-4), si(-6)), p.sub_vector(v));
}

#[test]
fn subtracting_two_vectors() {
    // Given
    let v1 = Vector::new(si(3), si(2), si(1));
    let v2 = Vector::new(si(5), si(6), si(7));

    // Then
    assert_eq!(Vector::new(si(-2), si(-4), si(-6)), v1.sub(v2));
}
