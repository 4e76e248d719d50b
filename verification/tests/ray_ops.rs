use punytracer::point::Point;
use punytracer::ray::Ray;
use punytracer::scalar::Scalar;
use punytracer::tuple::Tuple;
use punytracer::vector::Vector;

fn si(v: i64) -> Scalar {
    Scalar::from_int(v)
}

#[test]
fn ray_keeps_its_direction_and_origin() {
    let direction = Vector::new(si(4), si(5), si(6));
    let origin = Point::new(si(1), si(2), si(3));
    let ray = Ray::new(&direction, &origin);

    assert_eq!(ray.direction(), direction);
    assert_eq!(ray.origin(), origin);
}

#[test]
fn ray_position_scales_with_the_parameter() {
    let direction = Vector::new(si(1), si(0), si(0));
    let origin = Point::new(si(2), si(3), si(4));
    let ray = Ray::new(&direction, &origin);

    assert_eq!(ray.at(si(0)), origin);
    assert_eq!(ray.at(si(1)), Point::new(si(3), si(3), si(4)));
    assert_eq!(ray.at(si(-1)), Point::new(si(1), si(3), si(4)));
    assert_eq!(ray.at(si(2)), Point::new(si(4), si(3), si(4)));
}
