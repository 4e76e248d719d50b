use punytracer::color::Color;
use punytracer::scalar::Scalar;

fn s(u: i128) -> Scalar {
    Scalar::from_units(u)
}

#[test]
fn create_color() {
    // Given
    let color = Color::new(s(-5_000_000), s(4_000_000), s(17_000_000));

    // Then
    assert_eq!(color.r, s(-5_000_000));
    assert_eq!(color.g, s(4_000_000));
    assert_eq!(color.b, s(17_000_000));
}

#[test]
fn add_two_colors() {
    // Given
    let c1 = Color::new(s(9_000_000), s(6_000_000), s(7_500_000));
    let c2 = Color::new(s(7_000_000), s(1_000_000), s(2_500_000));

    // Then
    assert_eq!(Color::new(s(16_000_000), s(7_000_000), s(10_000_000)), c1.add(c2));
}

#[test]
fn subtract_two_colors() {
    // Given
    let c1 = Color::new(s(9_000_000), s(6_000_000), s(7_500_000));
    let c2 = Color::new(s(7_000_000), s(1_000_000), s(2_500_000));

    // Then
    assert_eq!(Color::new(s(2_000_000), s(5_000_000), s(5_000_000)), c1.sub(c2));
}

#[test]
fn multiply_color_by_scalar() {
    // Given
    let color = Color::new(s(2_000_000), s(3_000_000), s(4_000_000));

    // Then
    assert_eq!(
        Color::new(s(4_000_000), s(6_000_000), s(8_000_000)),
        color.mul_scalar(Scalar::from_int(2))
    );
}

#[test]
fn multiply_two_colors() {
    // Given
    let c1 = Color::new(s(10_000_000), s(2_000_000), s(4_000_000));
    let c2 = Color::new(s(9_000_000), s(10_000_000), s(1_000_000));

    // Then
    assert_eq!(Color::new(s(9_000_000), s(2_000_000), s(400_000)), c1.mul(c2));
}

#[test]
fn rendering_clamps_channels_to_bytes() {
    // Below 0 clamps to 0, above 1.0 clamps to 255, 0.5 truncates to 127
    let c = Color::new(s(-5_000_000), s(5_000_000), s(17_000_000));
    assert_eq!(c.to_rgb(), [0, 127, 255]);

    // Full intensity is exactly 255, black is exactly 0
    let edges = Color::new(s(10_000_000), s(0), s(9_999_999));
    assert_eq!(edges.to_rgb(), [255, 0, 254]);
}
