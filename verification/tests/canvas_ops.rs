use punytracer::canvas::Canvas;
use punytracer::color::Color;
use punytracer::scalar::Scalar;

fn s(u: i128) -> Scalar {
    Scalar::from_units(u)
}

fn black() -> Color {
    Color::new(s(0), s(0), s(0))
}

#[test]
fn create_canvas() {
    // Given
    let canvas = Canvas::new(10, 20);

    // Then
    assert_eq!(canvas.width(), 10);
    assert_eq!(canvas.height(), 20);
    for y in 0..20 {
        for x in 0..10 {
            assert_eq!(canvas.at(x, y), black());
        }
    }
}

#[test]
fn writing_pixels_to_canvas() {
    // Given
    let mut canvas = Canvas::new(10, 20);

    // When
    canvas.set(1, 2, Color::new(s(10_000_000), s(0), s(0)));

    // Then
    assert_eq!(canvas.at(1, 2), Color::new(s(10_000_000), s(0), s(0)));
}

#[test]
fn canvas_renders_flat_rgb_rows() {
    // Given a 2 by 2 canvas with one red pixel at (1, 0)
    let mut canvas = Canvas::new(2, 2);
    canvas.set(1, 0, Color::new(s(10_000_000), s(0), s(0)));

    // Then the buffer holds three bytes per pixel, scanline by scanline
    let bytes = canvas.to_rgb_bytes();
    assert_eq!(bytes, vec![0, 0, 0, 255, 0, 0, 0, 0, 0, 0, 0, 0]);
}
