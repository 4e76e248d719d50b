use punytracer::approx::ApproxEq;
use punytracer::color::Color;
use punytracer::point::Point;
use punytracer::scalar::Scalar;
use punytracer::tuple::Tuple;
use punytracer::vector::Vector;

fn s(u: i128) -> Scalar {
    Scalar::from_units(u)
}

fn si(v: i64) -> Scalar {
    Scalar::from_int(v)
}

#[test]
fn tight_comparison_is_strict_at_its_tolerance() {
    // A whole tolerance apart compares unequal; anything less is equal
    assert!(!s(0).approx_eq(s(1)));
    assert!(!s(1).approx_eq(s(0)));
    assert!(s(42).approx_eq(s(42)));
}

#[test]
fn loose_comparison_is_strict_at_its_tolerance() {
    // Exactly the loose tolerance apart compares unequal, one unit less is
    // equal
    assert!(!s(0).approx_eq_low_precision(s(10_000)));
    assert!(!s(10_000).approx_eq_low_precision(s(0)));
    assert!(s(0).approx_eq_low_precision(s(9_999)));
}

#[test]
fn points_use_the_tight_tier_and_vectors_the_loose_tier() {
    // Components differing by 5e-4 tell the two tiers apart
    let gap = s(5_000);
    let p1 = Point::new(s(0), s(0), s(0));
    let p2 = Point::new(gap, s(0), s(0));
    assert_ne!(p1, p2);

    let v1 = Vector::new(s(0), s(0), s(0));
    let v2 = Vector::new(gap, s(0), s(0));
    assert_eq!(v1, v2);

    let c1 = Color::new(s(0), s(0), s(0));
    let c2 = Color::new(gap, s(0), s(0));
    assert_eq!(c1, c2);
}

#[test]
fn translating_a_point_there_and_back_returns_it() {
    let p = Point::new(si(3), si(-4), s(25_000_000));
    let v = Vector::new(si(7), s(5_500_000), si(-2));

    assert_eq!(p.add(v).sub_vector(v), p);
}

#[test]
fn negative_axis_unit_vectors_have_magnitude_one() {
    assert_eq!(Vector::new(si(-1), si(0), si(0)).magnitude(), si(1));
    assert_eq!(Vector::new(si(0), si(-1), si(0)).magnitude(), si(1));
    assert_eq!(Vector::new(si(0), si(0), si(-1)).magnitude(), si(1));
}

#[test]
fn normalizing_keeps_direction_for_more_vectors() {
    // Another nonzero vector normalizes to loosely unit magnitude
    let v = Vector::new(si(-5), si(12), si(0));
    assert_eq!(v.normalize().magnitude(), s(9_999_999));
    assert!(v.normalize().magnitude().approx_eq_low_precision(si(1)));
}

#[test]
fn scalar_units_round_trip() {
    assert_eq!(s(123).to_units(), 123);
    assert_eq!(si(-3).to_units(), -30_000_000);
}
